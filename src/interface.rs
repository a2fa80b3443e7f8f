//! The closed set of protocol interfaces that the server knows.
use vstd::prelude::*;

verus! {

/// A protocol interface. Each has a name, as clients spell it, and the
/// highest version that the server implements.
#[derive(Clone, Copy, Debug, PartialEq, Eq, Structural)]
pub enum InterfaceIndex {
    WlDisplay,
    WlRegistry,
    WlCallback,
    WlCompositor,
    WlShm,
    WlShmPool,
    WlBuffer,
    WlSurface,
    WlRegion,
    WlSeat,
    WlPointer,
    WlKeyboard,
    WlTouch,
    WlOutput,
    WlSubcompositor,
    WlSubsurface,
    WlDataDeviceManager,
    WlDataDevice,
    WlDataSource,
    WlDataOffer,
    WlShell,
    WlShellSurface,
    WlFixes,
}

/// Every interface, in declaration order.
pub open spec fn all_interfaces() -> Seq<InterfaceIndex> {
    seq![
        InterfaceIndex::WlDisplay,
        InterfaceIndex::WlRegistry,
        InterfaceIndex::WlCallback,
        InterfaceIndex::WlCompositor,
        InterfaceIndex::WlShm,
        InterfaceIndex::WlShmPool,
        InterfaceIndex::WlBuffer,
        InterfaceIndex::WlSurface,
        InterfaceIndex::WlRegion,
        InterfaceIndex::WlSeat,
        InterfaceIndex::WlPointer,
        InterfaceIndex::WlKeyboard,
        InterfaceIndex::WlTouch,
        InterfaceIndex::WlOutput,
        InterfaceIndex::WlSubcompositor,
        InterfaceIndex::WlSubsurface,
        InterfaceIndex::WlDataDeviceManager,
        InterfaceIndex::WlDataDevice,
        InterfaceIndex::WlDataSource,
        InterfaceIndex::WlDataOffer,
        InterfaceIndex::WlShell,
        InterfaceIndex::WlShellSurface,
        InterfaceIndex::WlFixes,
    ]
}

/// The interface's name, as clients spell it.
pub open spec fn name_of(i: InterfaceIndex) -> Seq<char> {
    match i {
        InterfaceIndex::WlDisplay => "wl_display"@,
        InterfaceIndex::WlRegistry => "wl_registry"@,
        InterfaceIndex::WlCallback => "wl_callback"@,
        InterfaceIndex::WlCompositor => "wl_compositor"@,
        InterfaceIndex::WlShm => "wl_shm"@,
        InterfaceIndex::WlShmPool => "wl_shm_pool"@,
        InterfaceIndex::WlBuffer => "wl_buffer"@,
        InterfaceIndex::WlSurface => "wl_surface"@,
        InterfaceIndex::WlRegion => "wl_region"@,
        InterfaceIndex::WlSeat => "wl_seat"@,
        InterfaceIndex::WlPointer => "wl_pointer"@,
        InterfaceIndex::WlKeyboard => "wl_keyboard"@,
        InterfaceIndex::WlTouch => "wl_touch"@,
        InterfaceIndex::WlOutput => "wl_output"@,
        InterfaceIndex::WlSubcompositor => "wl_subcompositor"@,
        InterfaceIndex::WlSubsurface => "wl_subsurface"@,
        InterfaceIndex::WlDataDeviceManager => "wl_data_device_manager"@,
        InterfaceIndex::WlDataDevice => "wl_data_device"@,
        InterfaceIndex::WlDataSource => "wl_data_source"@,
        InterfaceIndex::WlDataOffer => "wl_data_offer"@,
        InterfaceIndex::WlShell => "wl_shell"@,
        InterfaceIndex::WlShellSurface => "wl_shell_surface"@,
        InterfaceIndex::WlFixes => "wl_fixes"@,
    }
}

/// The highest version of the interface that the server implements.
pub open spec fn version_of(i: InterfaceIndex) -> u32 {
    match i {
        InterfaceIndex::WlCompositor => 6,
        InterfaceIndex::WlShm => 2,
        InterfaceIndex::WlShmPool => 2,
        InterfaceIndex::WlSurface => 6,
        InterfaceIndex::WlSeat => 9,
        InterfaceIndex::WlPointer => 9,
        InterfaceIndex::WlKeyboard => 9,
        InterfaceIndex::WlTouch => 9,
        InterfaceIndex::WlOutput => 4,
        InterfaceIndex::WlDataDeviceManager => 3,
        InterfaceIndex::WlDataDevice => 3,
        InterfaceIndex::WlDataSource => 3,
        InterfaceIndex::WlDataOffer => 3,
        _ => 1,
    }
}

impl InterfaceIndex {
    /// The interface's name, as clients spell it.
    pub fn interface_name(&self) -> (r: &'static str)
        ensures
            r@ == name_of(*self),
    {
        match self {
            InterfaceIndex::WlDisplay => "wl_display",
            InterfaceIndex::WlRegistry => "wl_registry",
            InterfaceIndex::WlCallback => "wl_callback",
            InterfaceIndex::WlCompositor => "wl_compositor",
            InterfaceIndex::WlShm => "wl_shm",
            InterfaceIndex::WlShmPool => "wl_shm_pool",
            InterfaceIndex::WlBuffer => "wl_buffer",
            InterfaceIndex::WlSurface => "wl_surface",
            InterfaceIndex::WlRegion => "wl_region",
            InterfaceIndex::WlSeat => "wl_seat",
            InterfaceIndex::WlPointer => "wl_pointer",
            InterfaceIndex::WlKeyboard => "wl_keyboard",
            InterfaceIndex::WlTouch => "wl_touch",
            InterfaceIndex::WlOutput => "wl_output",
            InterfaceIndex::WlSubcompositor => "wl_subcompositor",
            InterfaceIndex::WlSubsurface => "wl_subsurface",
            InterfaceIndex::WlDataDeviceManager => "wl_data_device_manager",
            InterfaceIndex::WlDataDevice => "wl_data_device",
            InterfaceIndex::WlDataSource => "wl_data_source",
            InterfaceIndex::WlDataOffer => "wl_data_offer",
            InterfaceIndex::WlShell => "wl_shell",
            InterfaceIndex::WlShellSurface => "wl_shell_surface",
            InterfaceIndex::WlFixes => "wl_fixes",
        }
    }

    /// The highest version of the interface that the server implements.
    pub fn interface_version(&self) -> (r: u32)
        ensures
            r == version_of(*self),
    {
        match self {
            InterfaceIndex::WlCompositor => 6,
            InterfaceIndex::WlShm => 2,
            InterfaceIndex::WlShmPool => 2,
            InterfaceIndex::WlSurface => 6,
            InterfaceIndex::WlSeat => 9,
            InterfaceIndex::WlPointer => 9,
            InterfaceIndex::WlKeyboard => 9,
            InterfaceIndex::WlTouch => 9,
            InterfaceIndex::WlOutput => 4,
            InterfaceIndex::WlDataDeviceManager => 3,
            InterfaceIndex::WlDataDevice => 3,
            InterfaceIndex::WlDataSource => 3,
            InterfaceIndex::WlDataOffer => 3,
            _ => 1,
        }
    }

    /// The UTF-8 bytes of the interface's name.
    pub fn name_bytes(&self) -> (r: &'static [u8])
        ensures
            r@ == vstd::utf8::encode_utf8(name_of(*self)),
    {
        self.interface_name().as_bytes()
    }

    /// Every interface, in declaration order.
    pub fn all() -> (r: Vec<InterfaceIndex>)
        ensures
            r@ == all_interfaces(),
    {
        let r = vec![
            InterfaceIndex::WlDisplay,
            InterfaceIndex::WlRegistry,
            InterfaceIndex::WlCallback,
            InterfaceIndex::WlCompositor,
            InterfaceIndex::WlShm,
            InterfaceIndex::WlShmPool,
            InterfaceIndex::WlBuffer,
            InterfaceIndex::WlSurface,
            InterfaceIndex::WlRegion,
            InterfaceIndex::WlSeat,
            InterfaceIndex::WlPointer,
            InterfaceIndex::WlKeyboard,
            InterfaceIndex::WlTouch,
            InterfaceIndex::WlOutput,
            InterfaceIndex::WlSubcompositor,
            InterfaceIndex::WlSubsurface,
            InterfaceIndex::WlDataDeviceManager,
            InterfaceIndex::WlDataDevice,
            InterfaceIndex::WlDataSource,
            InterfaceIndex::WlDataOffer,
            InterfaceIndex::WlShell,
            InterfaceIndex::WlShellSurface,
            InterfaceIndex::WlFixes,
        ];
        assert(r@ =~= all_interfaces());
        r
    }

    /// The interface whose name has these UTF-8 bytes.
    pub fn from_name(name: &[u8]) -> (r: Option<InterfaceIndex>)
        ensures
            match r {
                Some(i) => vstd::utf8::encode_utf8(name_of(i)) == name@,
                None => forall|k: int| 0 <= k < all_interfaces().len() ==> vstd::utf8::encode_utf8(name_of(#[trigger] all_interfaces()[k])) != name@,
            },
    {
        let all = InterfaceIndex::all();
        let mut k: usize = 0;
        while k < all.len()
            invariant
                k <= all@.len(),
                all@ == all_interfaces(),
                forall|j: int| 0 <= j < k ==> vstd::utf8::encode_utf8(name_of(#[trigger] all_interfaces()[j])) != name@,
            decreases all@.len() - k,
        {
            let candidate = all[k];
            if bytes_equal(candidate.name_bytes(), name) {
                return Some(candidate);
            }
            k = k + 1;
        }
        None
    }
}

/// Whether two byte strings are equal.
pub fn bytes_equal(a: &[u8], b: &[u8]) -> (r: bool)
    ensures
        r == (a@ == b@),
{
    if a.len() != b.len() {
        return false;
    }
    let mut i: usize = 0;
    while i < a.len()
        invariant
            i <= a@.len(),
            a@.len() == b@.len(),
            forall|j: int| 0 <= j < i ==> a@[j] == b@[j],
        decreases a@.len() - i,
    {
        if a[i] != b[i] {
            return false;
        }
        i = i + 1;
    }
    assert(a@ =~= b@);
    true
}

} // verus!
