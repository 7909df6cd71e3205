//! The arguments of a start: a list of tokens that holds assignments of the
//! form key, sign, value, with commas between them.

use crate::text::{optional_string, same_text};
use vstd::prelude::*;

verus! {

/// The view of a list of tokens.
pub open spec fn tokens_view(tokens: Seq<String>) -> Seq<Seq<char>> {
    tokens.map_values(|t: String| t@)
}

/// The tokens that are not commas, in their order.
pub open spec fn without_commas(tokens: Seq<Seq<char>>) -> Seq<Seq<char>> {
    tokens.filter(|t: Seq<char>| t != ","@)
}

/// The tokens that are left without the commas fall into groups of three.
pub open spec fn assignments_complete(tokens: Seq<Seq<char>>) -> bool {
    without_commas(tokens).len() % 3 == 0
}

/// The value that the last of the first `count` groups of three with the
/// key `key` assigns: the first token of a group is its key, the third its
/// value, and the second is not looked at.
pub open spec fn assigned(args: Seq<Seq<char>>, key: Seq<char>, count: nat) -> Option<Seq<char>>
    decreases count,
{
    if count == 0 {
        None
    } else if args[3 * (count - 1)] == key {
        Some(args[3 * (count - 1) + 2])
    } else {
        assigned(args, key, (count - 1) as nat)
    }
}

/// What the tokens of a start say: the discriminator, which is what `path`
/// is assigned or empty, and the target, which is what `gfx` is assigned if
/// it is assigned at all. Of two assignments to one key the later counts.
pub open spec fn kernel_init_args(tokens: Seq<Seq<char>>) -> (Seq<char>, Option<Seq<char>>) {
    let args = without_commas(tokens);
    let count = (args.len() / 3) as nat;
    (
        match assigned(args, "path"@, count) {
            Some(path) => path,
            None => Seq::empty(),
        },
        assigned(args, "gfx"@, count),
    )
}

/// The tokens that are not commas.
fn strip_commas(tokens: &Vec<String>) -> (args: Vec<&String>)
    ensures
        args@.map_values(|t: &String| t@) == without_commas(tokens_view(tokens@)),
{
    let mut args: Vec<&String> = Vec::new();
    let ghost all = tokens_view(tokens@);
    let mut i: usize = 0;
    assert(all.subrange(0, 0) =~= Seq::<Seq<char>>::empty());
    while i < tokens.len()
        invariant
            i <= tokens.len(),
            all == tokens_view(tokens@),
            args@.map_values(|t: &String| t@) == without_commas(all.subrange(0, i as int)),
        decreases tokens.len() - i,
    {
        let ghost before = args@.map_values(|t: &String| t@);
        proof {
            let now = all.subrange(0, i as int + 1);
            assert(now.drop_last() =~= all.subrange(0, i as int));
            assert(now.last() == tokens@[i as int]@);
            reveal(Seq::filter);
        }
        if !same_text(tokens[i].as_str(), ",") {
            args.push(&tokens[i]);
            assert(args@.map_values(|t: &String| t@) =~= before.push(tokens@[i as int]@));
        }
        i = i + 1;
    }
    assert(all.subrange(0, i as int) =~= all);
    args
}

/// Whether the tokens hold whole assignments only.
pub fn kernel_init_args_complete(tokens: &Vec<String>) -> (r: bool)
    ensures
        r == assignments_complete(tokens_view(tokens@)),
{
    let args = strip_commas(tokens);
    assert(args@.len() == args@.map_values(|t: &String| t@).len());
    args.len() % 3 == 0
}

/// Reads the discriminator and the target from the tokens of a start.
pub fn parse_kernel_init_args(tokens: &Vec<String>) -> (r: (String, Option<String>))
    requires
        assignments_complete(tokens_view(tokens@)),
    ensures
        (r.0@, optional_string(r.1)) == kernel_init_args(tokens_view(tokens@)),
{
    let args = strip_commas(tokens);
    let ghost plain = without_commas(tokens_view(tokens@));
    assert(args@.len() == plain.len());
    let count: usize = args.len() / 3;
    assert(3 * count == plain.len());
    assert(count == plain.len() / 3);
    let mut path: Option<String> = None;
    let mut gfx: Option<String> = None;
    let mut k: usize = 0;
    while k < count
        invariant
            k <= count,
            3 * count == plain.len(),
            args@.len() == plain.len(),
            args@.map_values(|t: &String| t@) == plain,
            optional_string(path) == assigned(plain, "path"@, k as nat),
            optional_string(gfx) == assigned(plain, "gfx"@, k as nat),
        decreases count - k,
    {
        let key: &String = args[3 * k];
        let value: &String = args[3 * k + 2];
        proof {
            assert(plain[3 * k as int] == args@[3 * k as int]@);
            assert(plain[3 * k as int + 2] == args@[3 * k as int + 2]@);
        }
        if same_text(key.as_str(), "path") {
            path = Some(value.clone());
        }
        if same_text(key.as_str(), "gfx") {
            gfx = Some(value.clone());
        }
        k = k + 1;
    }
    let discriminator = match path {
        Some(p) => p,
        None => String::new(),
    };
    (discriminator, gfx)
}

} // verus!
