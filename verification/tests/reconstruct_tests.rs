use rocm_attr::codec::{store_kernel_item, StoreError};
use rocm_attr::preamble::{dummy_preamble, preamble, DEVICE_PROLOGUE, HOST_STAND_IN, INDEX_ACCESSORS};
use rocm_attr::reconstruct::{reconstruct_kernel_lib, reconstruct_unit};
use rocm_attr::store::FragmentStore;

#[test]
fn unit_of_an_empty_store_is_the_preamble_and_a_line_break() {
    let store = FragmentStore::new();
    assert_eq!(reconstruct_unit("PRE", &store), "PRE\n");
    assert_eq!(reconstruct_unit("", &store), "\n");
}

#[test]
fn unit_holds_the_fragments_in_the_order_of_their_identifiers() {
    let mut store = FragmentStore::new();
    store.upsert("fn sub", "fn sub() {}");
    store.upsert("struct Bar", "struct Bar;");
    store.upsert("fn add", "fn add() {}");
    assert_eq!(reconstruct_unit("PRE", &store), "PRE\nfn add() {}\nfn sub() {}\nstruct Bar;\n");
}

#[test]
fn unit_holds_the_last_text_of_a_repeated_identifier_only() {
    let mut store = FragmentStore::new();
    store.upsert("fn add", "OLD");
    store.upsert("fn sub", "SUB");
    store.upsert("fn add", "NEW");
    let unit = reconstruct_unit("PRE", &store);
    assert_eq!(unit, "PRE\nNEW\nSUB\n");
    assert!(!unit.contains("OLD"));
}

#[test]
fn unit_takes_the_texts_as_they_are() {
    let mut store = FragmentStore::new();
    store.upsert("a", "");
    store.upsert("b", "two\nlines\n");
    store.upsert("c", " \u{e9}\t");
    assert_eq!(reconstruct_unit("P\n", &store), "P\n\n\ntwo\nlines\n\n \u{e9}\t\n");
}

#[test]
fn reconstruct_without_a_store_file_gives_the_preamble_only() {
    let expected = format!("{}\n", preamble());
    assert_eq!(reconstruct_kernel_lib(None), Ok(expected.clone()));
    assert_eq!(reconstruct_kernel_lib(None), Ok(expected));
}

#[test]
fn reconstruct_of_an_empty_store_file_gives_the_preamble_only() {
    assert_eq!(reconstruct_kernel_lib(Some("{}")), Ok(format!("{}\n", preamble())));
}

#[test]
fn reconstruct_after_two_contributions() {
    let add = "pub fn add(a: u32, b: u32) -> u32 { a + b }";
    let sub = "pub fn sub(a: u32, b: u32) -> u32 { a - b }";
    let first = store_kernel_item(None, "fn add", add).unwrap();
    let second = store_kernel_item(Some(&first), "fn sub", sub).unwrap();
    let expected = format!("{}\n{}\n{}\n", preamble(), add, sub);
    assert_eq!(reconstruct_kernel_lib(Some(&second)), Ok(expected));
}

#[test]
fn reconstruct_does_not_depend_on_the_order_of_contribution() {
    let first = store_kernel_item(Some(&store_kernel_item(None, "fn sub", "S").unwrap()), "fn add", "A").unwrap();
    let second = store_kernel_item(Some(&store_kernel_item(None, "fn add", "A").unwrap()), "fn sub", "S").unwrap();
    assert_eq!(reconstruct_kernel_lib(Some(&first)), reconstruct_kernel_lib(Some(&second)));
    assert_eq!(reconstruct_kernel_lib(Some(&first)), Ok(format!("{}\nA\nS\n", preamble())));
}

#[test]
fn reconstruct_reads_a_store_in_any_key_order() {
    let unit = reconstruct_kernel_lib(Some("{\"fn sub\": \"S\", \"enum E\": \"E\", \"fn add\": \"A\"}"));
    assert_eq!(unit, Ok(format!("{}\nE\nA\nS\n", preamble())));
}

#[test]
fn reconstruct_fails_on_a_corrupt_store() {
    assert_eq!(reconstruct_kernel_lib(Some("{\"fn add\": 3}")), Err(StoreError::Corrupt));
    assert_eq!(reconstruct_kernel_lib(Some("")), Err(StoreError::Corrupt));
}

#[test]
fn preamble_is_the_prologue_and_the_accessors() {
    assert_eq!(preamble(), format!("{}{}", DEVICE_PROLOGUE, INDEX_ACCESSORS));
    assert!(preamble().starts_with("#![no_std]\n#![feature(abi_gpu_kernel)]\n"));
    assert!(preamble().contains("#[link_name = \"llvm.amdgcn.workitem.id.x\"]"));
    assert!(preamble().contains("#[link_name = \"llvm.amdgcn.workgroup.id.z\"]"));
    assert!(preamble().contains("#[panic_handler]"));
    assert!(preamble().ends_with("{ unsafe { *target.add(workitem_id_x() as usize) = value } }\n"));
}

#[test]
fn dummy_preamble_offers_the_names_of_the_preamble() {
    assert_eq!(dummy_preamble(), format!("{}{}", HOST_STAND_IN, INDEX_ACCESSORS));
    let names = [
        "workitem_id_x", "workitem_id_y", "workitem_id_z", "workgroup_id_x", "workgroup_id_y", "workgroup_id_z",
        "read_by_workitem_id_x", "read_by_workitem_id_y", "read_by_workitem_id_z", "read_by_workgroup_id_x",
        "read_by_workgroup_id_y", "read_by_workgroup_id_z", "write_by_workitem_id_x", "write_by_workitem_id_y",
        "write_by_workitem_id_z", "write_by_workgroup_id_x", "write_by_workgroup_id_y", "write_by_workgroup_id_z",
    ];
    for name in names {
        let head = format!("pub fn {}", name);
        assert!(preamble().contains(&head), "{}", name);
        assert!(dummy_preamble().contains(&head), "{}", name);
    }
    assert!(!dummy_preamble().contains("no_std"));
    assert!(!dummy_preamble().contains("llvm"));
}
