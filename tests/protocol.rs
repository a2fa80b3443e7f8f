use lumalla::client::Client;
use lumalla::display::{DisplayState, Effect, Step};
use lumalla::interface::InterfaceIndex;
use lumalla::shm::Mapping;

fn frame(object_id: u32, opcode: u16, body: &[u8]) -> Vec<u8> {
    let mut v = Vec::new();
    v.extend_from_slice(&object_id.to_le_bytes());
    v.extend_from_slice(&((8 + body.len()) as u16).to_le_bytes());
    v.extend_from_slice(&opcode.to_le_bytes());
    v.extend_from_slice(body);
    v
}

fn string_arg(s: &str) -> Vec<u8> {
    let mut v = Vec::new();
    v.extend_from_slice(&((s.len() + 1) as u32).to_le_bytes());
    v.extend_from_slice(s.as_bytes());
    v.push(0);
    while v.len() % 4 != 0 {
        v.push(0);
    }
    v
}

fn words(ws: &[u32]) -> Vec<u8> {
    let mut v = Vec::new();
    for w in ws {
        v.extend_from_slice(&w.to_le_bytes());
    }
    v
}

fn send(client: &mut Client, bytes: &[u8], fds: &[i32]) {
    client.reader.receive(bytes, fds);
}

fn global_event(registry_id: u32, name: u32, iface: &str, version: u32) -> Vec<u8> {
    let mut body = words(&[name]);
    body.extend(string_arg(iface));
    body.extend(words(&[version]));
    frame(registry_id, 0, &body)
}

/// Binds wl_shm as object 3 through a registry at object 2, and clears the output.
fn bind_shm(client: &mut Client, display: &mut DisplayState) {
    send(client, &frame(1, 1, &words(&[2])), &[]);
    assert_eq!(client.process_next(display), Step::Handled(Effect::Nothing));
    let mut body = words(&[2]);
    body.extend(string_arg("wl_shm"));
    body.extend(words(&[1, 3]));
    send(client, &frame(2, 0, &body), &[]);
    assert_eq!(client.process_next(display), Step::Handled(Effect::Nothing));
    let n = client.writer.buffered().len();
    client.writer.mark_sent(n);
}

#[test]
fn sync_round_trip() {
    let mut display = DisplayState::new();
    let mut client = Client::new(1);
    send(&mut client, &frame(1, 0, &words(&[2])), &[]);
    assert_eq!(client.process_next(&mut display), Step::Handled(Effect::Nothing));
    assert_eq!(client.process_next(&mut display), Step::Idle);
    let mut expected = frame(2, 0, &words(&[0]));
    expected.extend(frame(1, 1, &words(&[2])));
    assert_eq!(client.writer.buffered(), expected.as_slice());
    assert_eq!(client.writer.buffered().len(), 24);
    assert!(client.writer.outgoing_fds().is_empty());
}

#[test]
fn registry_bind_of_wl_shm() {
    let mut display = DisplayState::new();
    let mut client = Client::new(1);
    send(&mut client, &frame(1, 1, &words(&[2])), &[]);
    assert_eq!(client.process_next(&mut display), Step::Handled(Effect::Nothing));
    let mut expected = global_event(2, 1, "wl_compositor", 6);
    expected.extend(global_event(2, 2, "wl_shm", 2));
    assert_eq!(client.writer.buffered(), expected.as_slice());

    let mut body = words(&[2]);
    body.extend(string_arg("wl_shm"));
    body.extend(words(&[1, 3]));
    send(&mut client, &frame(2, 0, &body), &[]);
    assert_eq!(client.process_next(&mut display), Step::Handled(Effect::Nothing));
    expected.extend(frame(3, 0, &words(&[1])));
    expected.extend(frame(3, 0, &words(&[0x41424752])));
    assert_eq!(client.writer.buffered(), expected.as_slice());
    assert_eq!(client.registry.interface_index(3), Some(InterfaceIndex::WlShm));
    assert_eq!(client.registry.interface_index(2), Some(InterfaceIndex::WlRegistry));
}

#[test]
fn bind_of_unknown_global_is_ignored() {
    let mut display = DisplayState::new();
    let mut client = Client::new(1);
    send(&mut client, &frame(1, 1, &words(&[2])), &[]);
    assert_eq!(client.process_next(&mut display), Step::Handled(Effect::Nothing));
    let before = client.writer.buffered().len();
    let mut body = words(&[99]);
    body.extend(string_arg("wl_shm"));
    body.extend(words(&[1, 3]));
    send(&mut client, &frame(2, 0, &body), &[]);
    assert_eq!(client.process_next(&mut display), Step::Handled(Effect::Nothing));
    assert_eq!(client.writer.buffered().len(), before);
    assert_eq!(client.registry.interface_index(3), None);
}

#[test]
fn shm_pool_lifecycle() {
    let mut display = DisplayState::new();
    let mut client = Client::new(1);
    bind_shm(&mut client, &mut display);

    send(&mut client, &frame(3, 0, &words(&[4, 4096])), &[17]);
    assert_eq!(
        client.process_next(&mut display),
        Step::Handled(Effect::MapPool { pool_id: 4, fd: 17, size: 4096 })
    );
    assert_eq!(
        display.finish_create_pool(1, &mut client.writer, 4, 17, 4096, Some(0x10000)),
        Step::Handled(Effect::Nothing)
    );
    assert_eq!(display.shm.pool(1, 4).unwrap().ref_count, 1);

    send(&mut client, &frame(4, 0, &words(&[5, 0, 16, 16, 64, 1])), &[]);
    assert_eq!(client.process_next(&mut display), Step::Handled(Effect::Nothing));
    assert_eq!(client.registry.interface_index(5), Some(InterfaceIndex::WlBuffer));
    let buffer = display.shm.buffer(1, 5).unwrap();
    assert!(buffer.alive);
    assert_eq!(buffer.address, Some(0x10000));
    assert_eq!(display.shm.pool(1, 4).unwrap().ref_count, 2);

    send(&mut client, &frame(4, 1, &[]), &[]);
    assert_eq!(client.process_next(&mut display), Step::Handled(Effect::Nothing));
    assert!(display.shm.pool(1, 4).is_none());
    let buffer = display.shm.buffer(1, 5).unwrap();
    assert!(buffer.alive);
    assert_eq!(display.shm.pool_at(buffer.pool_index).unwrap().ref_count, 1);

    send(&mut client, &frame(5, 0, &[]), &[]);
    assert_eq!(
        client.process_next(&mut display),
        Step::Handled(Effect::Unmap(Mapping { address: 0x10000, size: 4096 }))
    );
    assert_eq!(display.shm.pool_at(buffer.pool_index).unwrap().ref_count, 0);
    assert_eq!(display.shm.pool_at(buffer.pool_index).unwrap().address, None);
    let mut expected = frame(1, 1, &words(&[4]));
    expected.extend(frame(1, 1, &words(&[5])));
    assert_eq!(client.writer.buffered(), expected.as_slice());
}

#[test]
fn pool_resize_rebase() {
    let mut display = DisplayState::new();
    let mut client = Client::new(1);
    bind_shm(&mut client, &mut display);
    send(&mut client, &frame(3, 0, &words(&[4, 256])), &[9]);
    assert_eq!(
        client.process_next(&mut display),
        Step::Handled(Effect::MapPool { pool_id: 4, fd: 9, size: 256 })
    );
    assert_eq!(
        display.finish_create_pool(1, &mut client.writer, 4, 9, 256, Some(0x1000)),
        Step::Handled(Effect::Nothing)
    );
    send(&mut client, &frame(4, 0, &words(&[5, 0, 8, 4, 32, 1])), &[]);
    assert_eq!(client.process_next(&mut display), Step::Handled(Effect::Nothing));
    send(&mut client, &frame(4, 0, &words(&[6, 128, 8, 4, 32, 1])), &[]);
    assert_eq!(client.process_next(&mut display), Step::Handled(Effect::Nothing));
    assert_eq!(display.shm.buffer(1, 6).unwrap().address, Some(0x1080));

    send(&mut client, &frame(4, 2, &words(&[4096])), &[]);
    assert_eq!(
        client.process_next(&mut display),
        Step::Handled(Effect::RemapPool { pool_id: 4, fd: 9, size: 4096 })
    );
    assert_eq!(
        display.finish_resize_pool(1, &mut client.writer, 4, 4096, Some(0x40000)),
        Step::Handled(Effect::Unmap(Mapping { address: 0x1000, size: 256 }))
    );
    assert_eq!(display.shm.buffer(1, 5).unwrap().address, Some(0x40000));
    assert_eq!(display.shm.buffer(1, 6).unwrap().address, Some(0x40000 + 128));
    assert_eq!(display.shm.pool(1, 4).unwrap().size, 4096);
}

#[test]
fn pool_resize_that_shrinks_is_refused() {
    let mut display = DisplayState::new();
    let mut client = Client::new(1);
    bind_shm(&mut client, &mut display);
    send(&mut client, &frame(3, 0, &words(&[4, 256])), &[9]);
    let _ = client.process_next(&mut display);
    let _ = display.finish_create_pool(1, &mut client.writer, 4, 9, 256, Some(0x1000));
    send(&mut client, &frame(4, 2, &words(&[128])), &[]);
    assert_eq!(client.process_next(&mut display), Step::Disconnect);
    assert_eq!(display.shm.pool(1, 4).unwrap().address, Some(0x1000));
}

#[test]
fn failed_pool_mapping_reports_invalid_fd() {
    let mut display = DisplayState::new();
    let mut client = Client::new(1);
    bind_shm(&mut client, &mut display);
    send(&mut client, &frame(3, 0, &words(&[4, 4096])), &[17]);
    let _ = client.process_next(&mut display);
    assert_eq!(
        display.finish_create_pool(1, &mut client.writer, 4, 17, 4096, None),
        Step::Disconnect
    );
    assert!(display.shm.pool(1, 4).is_none());
    let mut body = words(&[4, 2]);
    body.extend(string_arg("cannot map pool"));
    assert_eq!(client.writer.buffered(), frame(1, 0, &body).as_slice());
}

#[test]
fn invalid_object() {
    let mut display = DisplayState::new();
    let mut client = Client::new(1);
    send(&mut client, &frame(0, 0, &words(&[2])), &[]);
    assert_eq!(client.process_next(&mut display), Step::Disconnect);
    let mut body = words(&[0, 0]);
    body.extend(string_arg("invalid object"));
    assert_eq!(client.writer.buffered(), frame(1, 0, &body).as_slice());
}

#[test]
fn unknown_object_is_reported() {
    let mut display = DisplayState::new();
    let mut client = Client::new(1);
    send(&mut client, &frame(7, 0, &[]), &[]);
    assert_eq!(client.process_next(&mut display), Step::Disconnect);
    let mut body = words(&[7, 0]);
    body.extend(string_arg("invalid object"));
    assert_eq!(client.writer.buffered(), frame(1, 0, &body).as_slice());
}

#[test]
fn unknown_opcode_is_invalid_method() {
    let mut display = DisplayState::new();
    let mut client = Client::new(1);
    send(&mut client, &frame(1, 9, &[]), &[]);
    assert_eq!(client.process_next(&mut display), Step::Disconnect);
    let mut body = words(&[1, 1]);
    body.extend(string_arg("invalid method"));
    assert_eq!(client.writer.buffered(), frame(1, 0, &body).as_slice());
}

#[test]
fn partial_message_waits_for_the_rest() {
    let mut display = DisplayState::new();
    let mut client = Client::new(1);
    let bytes = frame(1, 0, &words(&[2]));
    send(&mut client, &bytes[..5], &[]);
    assert_eq!(client.process_next(&mut display), Step::Idle);
    send(&mut client, &bytes[5..], &[]);
    assert_eq!(client.process_next(&mut display), Step::Handled(Effect::Nothing));
}

#[test]
fn surplus_fds_go_to_the_next_request() {
    let mut display = DisplayState::new();
    let mut client = Client::new(1);
    bind_shm(&mut client, &mut display);
    let mut bytes = frame(3, 0, &words(&[4, 64]));
    bytes.extend(frame(3, 0, &words(&[5, 64])));
    send(&mut client, &bytes, &[10, 11]);
    assert_eq!(
        client.process_next(&mut display),
        Step::Handled(Effect::MapPool { pool_id: 4, fd: 10, size: 64 })
    );
    assert_eq!(
        client.process_next(&mut display),
        Step::Handled(Effect::MapPool { pool_id: 5, fd: 11, size: 64 })
    );
}

#[test]
fn missing_fd_reads_as_minus_one() {
    let mut display = DisplayState::new();
    let mut client = Client::new(1);
    bind_shm(&mut client, &mut display);
    send(&mut client, &frame(3, 0, &words(&[4, 64])), &[]);
    assert_eq!(
        client.process_next(&mut display),
        Step::Handled(Effect::MapPool { pool_id: 4, fd: -1, size: 64 })
    );
}

#[test]
fn surface_attach_and_commit() {
    let mut display = DisplayState::new();
    let mut client = Client::new(1);
    bind_shm(&mut client, &mut display);
    // Bind the compositor as object 6.
    let mut body = words(&[1]);
    body.extend(string_arg("wl_compositor"));
    body.extend(words(&[4, 6]));
    send(&mut client, &frame(2, 0, &body), &[]);
    assert_eq!(client.process_next(&mut display), Step::Handled(Effect::Nothing));
    send(&mut client, &frame(6, 0, &words(&[7])), &[]);
    assert_eq!(client.process_next(&mut display), Step::Handled(Effect::Nothing));
    // A pool and a buffer to attach.
    send(&mut client, &frame(3, 0, &words(&[4, 4096])), &[3]);
    let _ = client.process_next(&mut display);
    let _ = display.finish_create_pool(1, &mut client.writer, 4, 3, 4096, Some(0x1000));
    send(&mut client, &frame(4, 0, &words(&[5, 0, 16, 16, 64, 1])), &[]);
    assert_eq!(client.process_next(&mut display), Step::Handled(Effect::Nothing));

    send(&mut client, &frame(7, 1, &words(&[5, 2, 3])), &[]);
    assert_eq!(client.process_next(&mut display), Step::Handled(Effect::Nothing));
    let s = display.surfaces.get(1, 7).unwrap();
    assert_eq!(s.pending.buffer, Some(5));
    assert_eq!(s.committed.buffer, None);
    send(&mut client, &frame(7, 6, &[]), &[]);
    assert_eq!(client.process_next(&mut display), Step::Handled(Effect::Nothing));
    let s = display.surfaces.get(1, 7).unwrap();
    assert_eq!(s.committed.buffer, Some(5));
    assert_eq!((s.committed.dx, s.committed.dy), (2, 3));
    assert_eq!(s.pending.buffer, None);

    // Attaching something that is not a buffer is an invalid object.
    send(&mut client, &frame(7, 1, &words(&[4, 0, 0])), &[]);
    assert_eq!(client.process_next(&mut display), Step::Disconnect);
}

#[test]
fn seat_global_is_broadcast_and_bound() {
    let mut display = DisplayState::new();
    let mut client = Client::new(1);
    send(&mut client, &frame(1, 1, &words(&[2])), &[]);
    assert_eq!(client.process_next(&mut display), Step::Handled(Effect::Nothing));
    let n = client.writer.buffered().len();
    client.writer.mark_sent(n);

    let id = display.seats.add_seat(String::from("seat0"), &mut display.globals).unwrap();
    assert_eq!(id, 3);
    let global = display.globals.iter()[2];
    client.broadcast_global(global);
    assert_eq!(client.writer.buffered(), global_event(2, 3, "wl_seat", 9).as_slice());
    client.writer.mark_sent(client.writer.buffered().len());

    let mut body = words(&[3]);
    body.extend(string_arg("wl_seat"));
    body.extend(words(&[1, 4]));
    send(&mut client, &frame(2, 0, &body), &[]);
    assert_eq!(client.process_next(&mut display), Step::Handled(Effect::Nothing));
    let mut expected = frame(4, 1, &string_arg("seat0"));
    expected.extend(frame(4, 0, &words(&[3])));
    assert_eq!(client.writer.buffered(), expected.as_slice());
}

#[test]
fn activating_a_seat_announces_it_to_every_client() {
    let mut display = DisplayState::new();
    let mut clients = vec![Client::new(1), Client::new(2)];
    for c in clients.iter_mut() {
        send(c, &frame(1, 1, &words(&[2])), &[]);
        assert_eq!(c.process_next(&mut display), Step::Handled(Effect::Nothing));
        let n = c.writer.buffered().len();
        c.writer.mark_sent(n);
    }
    assert_eq!(display.activate_seat(String::from("seat0"), &mut clients), Some(3));
    assert_eq!(display.seats.get_name(3), Some("seat0"));
    for c in clients.iter() {
        assert_eq!(c.writer.buffered(), global_event(2, 3, "wl_seat", 9).as_slice());
    }
    assert_eq!(display.activate_seat(String::from("seat0"), &mut clients), None);
    assert_eq!(display.register_global(InterfaceIndex::WlOutput, &mut clients), Some(4));
    let mut expected = global_event(2, 3, "wl_seat", 9);
    expected.extend(global_event(2, 4, "wl_output", 4));
    assert_eq!(clients[0].writer.buffered(), expected.as_slice());
}

#[test]
fn drained_reader_starts_over() {
    let mut client = Client::new(1);
    let mut display = DisplayState::new();
    let free = client.reader.free_space();
    send(&mut client, &frame(1, 0, &words(&[2])), &[]);
    assert_eq!(client.reader.free_space(), free - 12);
    assert_eq!(client.process_next(&mut display), Step::Handled(Effect::Nothing));
    assert_eq!(client.reader.free_space(), free);
}
