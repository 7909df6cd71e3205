//! The fixed texts that open a source unit: the prologue of the device
//! build, and its stand-in on the host.

use vstd::prelude::*;

verus! {

/// The directives of a freestanding device build, its panic policy, and the
/// bindings to the indices of work item and work group.
pub const DEVICE_PROLOGUE: &'static str = "#![no_std]
#![feature(abi_gpu_kernel)]
#![feature(core_intrinsics, link_llvm_intrinsics)]

#[panic_handler]
fn panic(_: &core::panic::PanicInfo) -> ! {
    loop {}
}

mod llvm_bindings {
    unsafe extern \"C\" {
        #[link_name = \"llvm.amdgcn.workitem.id.x\"]
        pub fn workitem_id_x() -> u32;
        #[link_name = \"llvm.amdgcn.workitem.id.y\"]
        pub fn workitem_id_y() -> u32;
        #[link_name = \"llvm.amdgcn.workitem.id.z\"]
        pub fn workitem_id_z() -> u32;

        #[link_name = \"llvm.amdgcn.workgroup.id.x\"]
        pub fn workgroup_id_x() -> u32;
        #[link_name = \"llvm.amdgcn.workgroup.id.y\"]
        pub fn workgroup_id_y() -> u32;
        #[link_name = \"llvm.amdgcn.workgroup.id.z\"]
        pub fn workgroup_id_z() -> u32;
    }
}

pub fn workitem_id_x() -> u32 { unsafe { llvm_bindings::workitem_id_x() } }
pub fn workitem_id_y() -> u32 { unsafe { llvm_bindings::workitem_id_y() } }
pub fn workitem_id_z() -> u32 { unsafe { llvm_bindings::workitem_id_z() } }
pub fn workgroup_id_x() -> u32 { unsafe { llvm_bindings::workgroup_id_x() } }
pub fn workgroup_id_y() -> u32 { unsafe { llvm_bindings::workgroup_id_y() } }
pub fn workgroup_id_z() -> u32 { unsafe { llvm_bindings::workgroup_id_z() } }
";

/// Reads and writes through a pointer at the index of the work item: the
/// same text on the device and on the host.
pub const INDEX_ACCESSORS: &'static str = "
pub fn read_by_workitem_id_x<T: Clone + Copy>(data: *const T) -> T { unsafe { *data.add(workitem_id_x() as usize) } }
pub fn read_by_workitem_id_y<T: Clone + Copy>(data: *const T) -> T { unsafe { *data.add(workitem_id_x() as usize) } }
pub fn read_by_workitem_id_z<T: Clone + Copy>(data: *const T) -> T { unsafe { *data.add(workitem_id_x() as usize) } }
pub fn read_by_workgroup_id_x<T: Clone + Copy>(data: *const T) -> T { unsafe { *data.add(workitem_id_x() as usize) } }
pub fn read_by_workgroup_id_y<T: Clone + Copy>(data: *const T) -> T { unsafe { *data.add(workitem_id_x() as usize) } }
pub fn read_by_workgroup_id_z<T: Clone + Copy>(data: *const T) -> T { unsafe { *data.add(workitem_id_x() as usize) } }

pub fn write_by_workitem_id_x<T: Clone + Copy>(target: *mut T, value: T) { unsafe { *target.add(workitem_id_x() as usize) = value } }
pub fn write_by_workitem_id_y<T: Clone + Copy>(target: *mut T, value: T) { unsafe { *target.add(workitem_id_x() as usize) = value } }
pub fn write_by_workitem_id_z<T: Clone + Copy>(target: *mut T, value: T) { unsafe { *target.add(workitem_id_x() as usize) = value } }
pub fn write_by_workgroup_id_x<T: Clone + Copy>(target: *mut T, value: T) { unsafe { *target.add(workitem_id_x() as usize) = value } }
pub fn write_by_workgroup_id_y<T: Clone + Copy>(target: *mut T, value: T) { unsafe { *target.add(workitem_id_x() as usize) = value } }
pub fn write_by_workgroup_id_z<T: Clone + Copy>(target: *mut T, value: T) { unsafe { *target.add(workitem_id_x() as usize) = value } }
";

/// Host-side stand-ins for the index bindings: counters that start at zero.
pub const HOST_STAND_IN: &'static str = "static WORKITEM_ID_X: std::sync::atomic::AtomicU32 = std::sync::atomic::AtomicU32::new(0);
static WORKITEM_ID_Y: std::sync::atomic::AtomicU32 = std::sync::atomic::AtomicU32::new(0);
static WORKITEM_ID_Z: std::sync::atomic::AtomicU32 = std::sync::atomic::AtomicU32::new(0);
static WORKGROUP_ID_X: std::sync::atomic::AtomicU32 = std::sync::atomic::AtomicU32::new(0);
static WORKGROUP_ID_Y: std::sync::atomic::AtomicU32 = std::sync::atomic::AtomicU32::new(0);
static WORKGROUP_ID_Z: std::sync::atomic::AtomicU32 = std::sync::atomic::AtomicU32::new(0);

pub fn workitem_id_x() -> u32 { WORKITEM_ID_X.load(std::sync::atomic::Ordering::Relaxed) }
pub fn workitem_id_y() -> u32 { WORKITEM_ID_Y.load(std::sync::atomic::Ordering::Relaxed) }
pub fn workitem_id_z() -> u32 { WORKITEM_ID_Z.load(std::sync::atomic::Ordering::Relaxed) }
pub fn workgroup_id_x() -> u32 { WORKGROUP_ID_X.load(std::sync::atomic::Ordering::Relaxed) }
pub fn workgroup_id_y() -> u32 { WORKGROUP_ID_Y.load(std::sync::atomic::Ordering::Relaxed) }
pub fn workgroup_id_z() -> u32 { WORKGROUP_ID_Z.load(std::sync::atomic::Ordering::Relaxed) }
";

/// The text of the prologue of every source unit.
pub open spec fn preamble_text() -> Seq<char> {
    DEVICE_PROLOGUE@ + INDEX_ACCESSORS@
}

/// The text of the stand-in that host code is given before a build exists.
pub open spec fn dummy_preamble_text() -> Seq<char> {
    HOST_STAND_IN@ + INDEX_ACCESSORS@
}

/// The prologue of every source unit.
pub fn preamble() -> (text: String)
    ensures
        text@ == preamble_text(),
{
    String::from_str(DEVICE_PROLOGUE).concat(INDEX_ACCESSORS)
}

/// The stand-in bindings: the same names as the prologue offers, so that
/// host code which uses them compiles before the device build exists.
pub fn dummy_preamble() -> (text: String)
    ensures
        text@ == dummy_preamble_text(),
{
    String::from_str(HOST_STAND_IN).concat(INDEX_ACCESSORS)
}

} // verus!
