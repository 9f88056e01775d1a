use glebin::game::gamestate::GameState;
use glebin::server::connection::{
    handle_client, Action, Connection, Event, Phase, READ_BUFFER_LEN, SNAPSHOT_BACKLOG,
};
use glebin::server::message::Message;
use glebin::server::queue::InboundQueue;
use glebin::server::tick::{run, tick_due, TICK_INTERVAL_MILLIS};

const ALICE: u128 = 0x550e8400_e29b_41d4_a716_446655440000;
const BOB: u128 = 0x00000000_0000_4000_8000_0000000000ff;

fn render(state: &GameState) -> String {
    let coords: Vec<(String, String)> = state
        .players()
        .iter()
        .map(|(_, x, y)| {
            (
                serde_json::to_string(&f32::from_bits(*x)).unwrap(),
                serde_json::to_string(&f32::from_bits(*y)).unwrap(),
            )
        })
        .collect();
    state.get_state(&coords)
}

fn received(payload: &str) -> Event {
    let position = serde_json::from_str::<(f32, f32)>(payload)
        .ok()
        .map(|(x, y)| (x.to_bits(), y.to_bits()));
    Event::Received { len: payload.len(), position }
}

fn perform(queue: &mut InboundQueue, action: Action) {
    match action {
        Action::Join { message } | Action::Enqueue { message } | Action::Leave { message } => {
            queue.enqueue(message)
        }
        _ => {}
    }
}

#[test]
fn queue_hands_out_in_arrival_order_and_empties() {
    let mut queue = InboundQueue::new();
    assert_eq!(queue.len(), 0);
    queue.enqueue(Message::AddPlayer { id: ALICE });
    queue.enqueue(Message::AddPlayer { id: BOB });
    queue.enqueue(Message::RemovePlayer { id: ALICE });
    assert_eq!(queue.len(), 3);
    let batch: Vec<Message> = queue.drain_all().into_iter().collect();
    assert_eq!(
        batch,
        vec![
            Message::AddPlayer { id: ALICE },
            Message::AddPlayer { id: BOB },
            Message::RemovePlayer { id: ALICE },
        ]
    );
    assert_eq!(queue.len(), 0);
    assert!(queue.drain_all().is_empty());
}

#[test]
fn intents_after_a_drain_wait_for_the_next() {
    let mut queue = InboundQueue::new();
    queue.enqueue(Message::AddPlayer { id: ALICE });
    let first: Vec<Message> = queue.drain_all().into_iter().collect();
    queue.enqueue(Message::AddPlayer { id: BOB });
    let second: Vec<Message> = queue.drain_all().into_iter().collect();
    assert_eq!(first, vec![Message::AddPlayer { id: ALICE }]);
    assert_eq!(second, vec![Message::AddPlayer { id: BOB }]);
}

#[test]
fn accepted_connection_has_a_random_id() {
    let a = Connection::accept();
    let b = Connection::accept();
    assert_eq!(a.phase(), Phase::Connecting);
    assert_eq!((a.id() >> 76) & 0xf, 4);
    assert_eq!((a.id() >> 62) & 0x3, 2);
    assert_eq!((b.id() >> 76) & 0xf, 4);
    assert_eq!((b.id() >> 62) & 0x3, 2);
    assert_ne!(a.id(), b.id());
}

#[test]
fn connection_walks_through_its_phases() {
    let mut conn = Connection::with_id(ALICE);
    assert_eq!(conn.id(), ALICE);
    assert_eq!(conn.phase(), Phase::Connecting);
    assert_eq!(handle_client(&mut conn, Event::SnapshotReady), Action::Wait);
    assert_eq!(conn.phase(), Phase::Connecting);
    assert_eq!(
        handle_client(&mut conn, Event::Opened),
        Action::Join { message: Message::AddPlayer { id: ALICE } }
    );
    assert_eq!(conn.phase(), Phase::Active);
    assert_eq!(handle_client(&mut conn, Event::WouldBlock), Action::Wait);
    assert_eq!(handle_client(&mut conn, Event::SnapshotReady), Action::WriteSnapshot);
    assert_eq!(conn.phase(), Phase::Active);
    assert_eq!(
        handle_client(&mut conn, Event::Received { len: 0, position: None }),
        Action::Leave { message: Message::RemovePlayer { id: ALICE } }
    );
    assert_eq!(conn.phase(), Phase::Closing);
    assert_eq!(handle_client(&mut conn, Event::SnapshotReady), Action::Wait);
    assert_eq!(handle_client(&mut conn, Event::Removed), Action::Stop);
    assert_eq!(conn.phase(), Phase::Closed);
    assert_eq!(handle_client(&mut conn, Event::Opened), Action::Stop);
    assert_eq!(conn.phase(), Phase::Closed);
}

#[test]
fn read_and_write_failures_close_the_connection() {
    let mut reader = Connection::with_id(ALICE);
    handle_client(&mut reader, Event::Opened);
    assert_eq!(
        handle_client(&mut reader, Event::ReadFailed),
        Action::Leave { message: Message::RemovePlayer { id: ALICE } }
    );
    assert_eq!(reader.phase(), Phase::Closing);
    let mut writer = Connection::with_id(BOB);
    handle_client(&mut writer, Event::Opened);
    assert_eq!(
        handle_client(&mut writer, Event::WriteFailed),
        Action::Leave { message: Message::RemovePlayer { id: BOB } }
    );
    assert_eq!(writer.phase(), Phase::Closing);
}

#[test]
fn position_that_is_not_finite_is_dropped() {
    let mut conn = Connection::with_id(ALICE);
    handle_client(&mut conn, Event::Opened);
    let inf = f32::INFINITY.to_bits();
    let nan = f32::NAN.to_bits();
    let one = 1.0f32.to_bits();
    assert_eq!(
        handle_client(&mut conn, Event::Received { len: 9, position: Some((inf, one)) }),
        Action::Wait
    );
    assert_eq!(
        handle_client(&mut conn, Event::Received { len: 9, position: Some((one, nan)) }),
        Action::Wait
    );
    assert_eq!(conn.phase(), Phase::Active);
}

#[test]
fn update_reaches_the_next_snapshot() {
    let mut state = GameState::new();
    let mut queue = InboundQueue::new();
    let mut conn = Connection::with_id(ALICE);
    let joined = handle_client(&mut conn, Event::Opened);
    perform(&mut queue, joined);
    let moved = handle_client(&mut conn, received("[1.5,-2.0]"));
    assert_eq!(
        moved,
        Action::Enqueue {
            message: Message::UpdatePlayerPosition {
                id: ALICE,
                x: 1.5f32.to_bits(),
                y: (-2.0f32).to_bits(),
            }
        }
    );
    perform(&mut queue, moved);
    assert_eq!(run(&mut state, &mut queue), Ok(()));
    assert_eq!(queue.len(), 0);
    assert_eq!(
        render(&state),
        "{\"550e8400-e29b-41d4-a716-446655440000\":[1.5,-2.0]}"
    );
}

#[test]
fn player_gone_before_the_tick_is_not_in_the_snapshot() {
    let mut state = GameState::new();
    let mut queue = InboundQueue::new();
    let mut conn = Connection::with_id(ALICE);
    let joined = handle_client(&mut conn, Event::Opened);
    perform(&mut queue, joined);
    let left = handle_client(&mut conn, Event::Received { len: 0, position: None });
    perform(&mut queue, left);
    assert_eq!(handle_client(&mut conn, Event::Removed), Action::Stop);
    assert_eq!(run(&mut state, &mut queue), Ok(()));
    assert_eq!(render(&state), "{}");
}

#[test]
fn malformed_payload_is_dropped() {
    let mut state = GameState::new();
    let mut queue = InboundQueue::new();
    let mut conn = Connection::with_id(ALICE);
    let joined = handle_client(&mut conn, Event::Opened);
    perform(&mut queue, joined);
    assert_eq!(run(&mut state, &mut queue), Ok(()));
    let before = render(&state);
    let action = handle_client(&mut conn, received("not json"));
    assert_eq!(action, Action::Wait);
    perform(&mut queue, action);
    assert_eq!(queue.len(), 0);
    assert_eq!(conn.phase(), Phase::Active);
    assert_eq!(run(&mut state, &mut queue), Ok(()));
    assert_eq!(render(&state), before);
}

#[test]
fn two_clients_in_one_tick_both_appear() {
    let mut state = GameState::new();
    let mut queue = InboundQueue::new();
    let mut a = Connection::with_id(ALICE);
    let mut b = Connection::with_id(BOB);
    let joined_a = handle_client(&mut a, Event::Opened);
    perform(&mut queue, joined_a);
    let joined_b = handle_client(&mut b, Event::Opened);
    perform(&mut queue, joined_b);
    let moved_a = handle_client(&mut a, received("[3.0, 4.0]"));
    perform(&mut queue, moved_a);
    let moved_b = handle_client(&mut b, received("[-1.25,0.5]"));
    perform(&mut queue, moved_b);
    assert_eq!(queue.len(), 4);
    assert_eq!(run(&mut state, &mut queue), Ok(()));
    assert_eq!(
        render(&state),
        "{\"550e8400-e29b-41d4-a716-446655440000\":[3.0,4.0],\
         \"00000000-0000-4000-8000-0000000000ff\":[-1.25,0.5]}"
    );
}

#[test]
fn tick_stops_at_a_failed_update_and_empties_the_queue() {
    let mut state = GameState::new();
    let mut queue = InboundQueue::new();
    queue.enqueue(Message::UpdatePlayerPosition { id: ALICE, x: 0, y: 0 });
    queue.enqueue(Message::AddPlayer { id: ALICE });
    assert_eq!(
        run(&mut state, &mut queue),
        Err("Could not move player as they do not exist.".to_string())
    );
    assert_eq!(queue.len(), 0);
    assert_eq!(state.len(), 0);
}

#[test]
fn tick_is_due_after_the_interval() {
    assert_eq!(TICK_INTERVAL_MILLIS, 8);
    assert!(!tick_due(0));
    assert!(!tick_due(8));
    assert!(tick_due(9));
    assert_eq!(READ_BUFFER_LEN, 128);
    assert_eq!(SNAPSHOT_BACKLOG, 10);
}
