use lumalla::client::ClientIds;
use lumalla::codegen::{enum_constant_name, escape_rust_keyword, event_method_name, request_type_name, snake_to_pascal_case};
use lumalla::message::ArgType;
use lumalla::protocol::request_signature;
use lumalla::schema::{interface_signatures, Interface, InterfaceDescription, Request, RequestArg, RequestDescription};
use lumalla::dumb_buffer::DumbBuffer;
use lumalla::callback::{CallbackState, PendingEvents};
use lumalla::cli::{GlobalArgs, ParseOutcome};
use lumalla::comms::{CallbackRef, Output, Zone};
use lumalla::globals::{Global, Globals};
use lumalla::interface::InterfaceIndex;
use lumalla::registry::{Registry, RegistryError, MIN_SERVER_OBJECT_ID};
use lumalla::seat::SeatManager;
use lumalla::surface::{SurfaceError, SurfaceManager, SurfaceRole};
use lumalla::writer::Writer;

#[test]
fn new_registry_holds_the_display() {
    let r = Registry::new();
    assert_eq!(r.interface_index(1), Some(InterfaceIndex::WlDisplay));
    assert_eq!(r.interface_index(2), None);
}

#[test]
fn register_rejects_live_zero_and_server_ids() {
    let mut r = Registry::new();
    assert_eq!(r.register_object(2, InterfaceIndex::WlRegistry), Ok(()));
    assert_eq!(r.register_object(2, InterfaceIndex::WlSurface), Err(RegistryError::AlreadyLive));
    assert_eq!(r.register_object(0, InterfaceIndex::WlSurface), Err(RegistryError::InvalidId));
    assert_eq!(
        r.register_object(MIN_SERVER_OBJECT_ID, InterfaceIndex::WlSurface),
        Err(RegistryError::InvalidId)
    );
    assert_eq!(r.interface_index(2), Some(InterfaceIndex::WlRegistry));
}

#[test]
fn register_free_register_rebinds_a_client_id() {
    let mut r = Registry::new();
    let mut w = Writer::new();
    assert_eq!(r.register_object(5, InterfaceIndex::WlSurface), Ok(()));
    assert!(r.free_object(5, &mut w));
    // delete_id(5) on the display.
    assert_eq!(w.buffered(), &[1, 0, 0, 0, 12, 0, 1, 0, 5, 0, 0, 0]);
    assert_eq!(r.register_object(5, InterfaceIndex::WlBuffer), Ok(()));
    assert_eq!(r.interface_index(5), Some(InterfaceIndex::WlBuffer));
}

#[test]
fn server_ids_are_recycled_or_fresh() {
    let mut r = Registry::new();
    let mut w = Writer::new();
    let a = r.create_object(InterfaceIndex::WlCallback).unwrap();
    let b = r.create_object(InterfaceIndex::WlCallback).unwrap();
    assert_eq!(a, MIN_SERVER_OBJECT_ID);
    assert_eq!(b, MIN_SERVER_OBJECT_ID + 1);
    assert!(r.free_object(a, &mut w));
    // A server id is not announced to the client.
    assert!(w.buffered().is_empty());
    assert_eq!(r.interface_index(a), None);
    assert_eq!(r.create_object(InterfaceIndex::WlOutput), Ok(a));
    assert_eq!(r.create_object(InterfaceIndex::WlOutput), Ok(b + 1));
    assert_eq!(r.interface_index(a), Some(InterfaceIndex::WlOutput));
}

#[test]
fn display_and_unknown_objects_are_not_freed() {
    let mut r = Registry::new();
    let mut w = Writer::new();
    assert!(!r.free_object(1, &mut w));
    assert!(!r.free_object(9, &mut w));
    assert_eq!(r.interface_index(1), Some(InterfaceIndex::WlDisplay));
    assert!(w.buffered().is_empty());
}

#[test]
fn object_ids_of_interface_lists_them_all() {
    let mut r = Registry::new();
    r.register_object(2, InterfaceIndex::WlRegistry).unwrap();
    r.register_object(3, InterfaceIndex::WlShm).unwrap();
    r.register_object(4, InterfaceIndex::WlRegistry).unwrap();
    let mut ids = r.iter_object_ids_of_interface(InterfaceIndex::WlRegistry);
    ids.sort();
    assert_eq!(ids, vec![2, 4]);
}

#[test]
fn interface_names_and_versions() {
    assert_eq!(InterfaceIndex::WlShm.interface_name(), "wl_shm");
    assert_eq!(InterfaceIndex::WlCompositor.interface_version(), 6);
    assert_eq!(InterfaceIndex::from_name(b"wl_seat"), Some(InterfaceIndex::WlSeat));
    assert_eq!(InterfaceIndex::from_name(b"wl_nothing"), None);
}

#[test]
fn globals_start_with_compositor_and_shm() {
    let mut g = Globals::new();
    assert_eq!(
        g.iter(),
        &[
            Global { id: 1, interface_index: InterfaceIndex::WlCompositor },
            Global { id: 2, interface_index: InterfaceIndex::WlShm },
        ]
    );
    assert_eq!(g.register(InterfaceIndex::WlOutput), Some(3));
    assert_eq!(g.get(3), Some(InterfaceIndex::WlOutput));
    assert!(g.remove(1));
    assert!(!g.remove(1));
    assert_eq!(g.get(1), None);
    assert_eq!(g.iter().len(), 2);
}

#[test]
fn seats_are_added_once() {
    let mut g = Globals::new();
    let mut s = SeatManager::new();
    assert_eq!(s.add_seat(String::from("seat0"), &mut g), Some(3));
    assert_eq!(s.add_seat(String::from("seat0"), &mut g), None);
    assert_eq!(s.get_name(3), Some("seat0"));
    assert_eq!(s.get_name(4), None);
    assert_eq!(g.get(3), Some(InterfaceIndex::WlSeat));
}

#[test]
fn surface_role_is_given_once() {
    let mut m = SurfaceManager::new();
    m.create_surface(1, 10);
    assert_eq!(m.set_role(1, 10, SurfaceRole::Subsurface), Ok(()));
    assert_eq!(m.set_role(1, 10, SurfaceRole::Cursor), Err(SurfaceError::RoleAlreadySet));
    assert_eq!(m.set_role(2, 10, SurfaceRole::Cursor), Err(SurfaceError::UnknownSurface));
    assert!(m.destroy_surface(1, 10));
    assert!(m.get(1, 10).is_none());
}

#[test]
fn callbacks_get_increasing_handles() {
    let mut c: CallbackState<&str> = CallbackState::new();
    let a = c.register_callback("a").unwrap();
    let b = c.register_callback("b").unwrap();
    assert_eq!(a.callback_id, 1);
    assert_eq!(b.callback_id, 2);
    assert_eq!(c.get_callback(b), Some(&"b"));
    c.forget_callback(a);
    assert_eq!(c.get_callback(a), None);
    assert_eq!(c.get_callback(CallbackRef { callback_id: 7 }), None);
}

#[test]
fn pending_events_drain_in_order() {
    let mut p = PendingEvents::new();
    p.push(1);
    p.push(2);
    assert_eq!(p.drain(), vec![1, 2]);
    assert!(p.drain().is_empty());
}

fn args(v: &[&str]) -> Vec<String> {
    v.iter().map(|s| s.to_string()).collect()
}

#[test]
fn command_line_options() {
    match GlobalArgs::parse(&args(&["lumalla", "-l", "log", "--socket-path", "/tmp/w", "-c", "cfg"])) {
        ParseOutcome::Run(g) => {
            assert_eq!(g.log_file.as_deref(), Some("log"));
            assert_eq!(g.socket_path.as_deref(), Some("/tmp/w"));
            assert_eq!(g.config.as_deref(), Some("cfg"));
        }
        other => panic!("unexpected {:?}", other),
    }
    assert!(matches!(GlobalArgs::parse(&args(&["lumalla", "--help"])), ParseOutcome::Help));
    assert!(matches!(GlobalArgs::parse(&args(&[])), ParseOutcome::NoProgramName));
    match GlobalArgs::parse(&args(&["lumalla", "--bogus"])) {
        ParseOutcome::Unknown(a) => assert_eq!(a, "--bogus"),
        other => panic!("unexpected {:?}", other),
    }
    match GlobalArgs::parse(&args(&["lumalla", "-s"])) {
        ParseOutcome::Run(g) => assert!(g.socket_path.is_none()),
        other => panic!("unexpected {:?}", other),
    }
}

#[test]
fn zone_and_output() {
    let z = Zone::new(String::from("main"), 1, 2, 3, 4, true);
    assert_eq!(z.geometry, (1, 2, 3, 4));
    assert!(z.default);
    let mut o = Output {
        name: String::from("DP-1"),
        description: String::new(),
        location: (0, 0),
        size: (1920, 1080),
    };
    o.set_location(5, 6);
    assert_eq!(o.location, (5, 6));
    assert_eq!(o.size, (1920, 1080));
}

#[test]
fn dumb_buffer_fill() {
    let d = DumbBuffer::new(3, 42, 2, 2, 8);
    assert_eq!(d.framebuffer(), 42);
    assert_eq!(d.size(), (2, 2));
    let mut map = vec![0u8; 20];
    assert!(d.fill(&mut map, 0x10, 0x20, 0x30));
    assert_eq!(&map[..16], &[0x30, 0x20, 0x10, 0xFF].repeat(4)[..]);
    assert_eq!(&map[16..], &[0, 0, 0, 0]);
    let mut short = vec![0u8; 15];
    assert!(!d.fill_raw(&mut short, 7));
    assert_eq!(short, vec![0u8; 15]);
}

#[test]
fn reserved_words_are_escaped() {
    assert_eq!(escape_rust_keyword("move"), "move_");
    assert_eq!(escape_rust_keyword("type"), "type_");
    assert_eq!(escape_rust_keyword("surface"), "surface");
}

#[test]
fn snake_case_becomes_pascal_case() {
    assert_eq!(snake_to_pascal_case("wl_shm_pool"), "WlShmPool");
    assert_eq!(snake_to_pascal_case("wl_SHM"), "WlShm");
    assert_eq!(snake_to_pascal_case("move"), "Move");
    assert_eq!(snake_to_pascal_case("a__b"), "AB");
    assert_eq!(snake_to_pascal_case(""), "");
}

#[test]
fn client_ids_start_at_one_and_increase() {
    let mut ids = ClientIds::new();
    assert_eq!(ids.allocate(), Some(1));
    assert_eq!(ids.allocate(), Some(2));
}

#[test]
fn generated_names() {
    assert_eq!(
        enum_constant_name("wl_display", "error", "invalid_object"),
        "WL_DISPLAY_ERROR_INVALID_OBJECT"
    );
    assert_eq!(request_type_name("wl_display", "sync"), "WlDisplaySync");
    assert_eq!(event_method_name("wl_callback", "done"), "wl_callback_done");
}

fn arg(name: &str, ty: &str) -> RequestArg {
    RequestArg {
        name: name.to_string(),
        arg_type: ty.to_string(),
        interface: None,
        summary: String::new(),
        arg_enum: None,
        allow_null: None,
    }
}

fn request(name: &str, args: Vec<RequestArg>) -> Request {
    Request {
        name: name.to_string(),
        request_type: None,
        since: None,
        text: None,
        description: RequestDescription { summary: String::new(), text: None },
        arg: if args.is_empty() { None } else { Some(args) },
    }
}

#[test]
fn signatures_from_a_protocol_description() {
    let shm = Interface {
        name: String::from("wl_shm"),
        version: String::from("2"),
        text: None,
        description: InterfaceDescription { summary: String::new(), text: None },
        request: Some(vec![
            request("create_pool", vec![arg("id", "new_id"), arg("fd", "fd"), arg("size", "int")]),
            request("release", vec![]),
        ]),
        event: None,
        interface_enum: None,
    };
    let sigs = interface_signatures(&shm).unwrap();
    assert_eq!(sigs, vec![vec![ArgType::NewId, ArgType::Fd, ArgType::Int], vec![]]);
    assert_eq!(Some(sigs[0].clone()), request_signature(InterfaceIndex::WlShm, 0));
    assert_eq!(Some(sigs[1].clone()), request_signature(InterfaceIndex::WlShm, 1));

    let bad = Interface {
        request: Some(vec![request("odd", vec![arg("x", "float")])]),
        ..shm
    };
    assert!(interface_signatures(&bad).is_none());
}
