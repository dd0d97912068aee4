use pixelbot::bot::{Action, Bot, Event, Exit, Inbound, Phase, MAX_ATTEMPTS, RETRY_SECS};
use pixelbot::pixel::{PixelInfo, PixelProvider};

fn pixel(x: u32, y: u32, color_id: u8) -> PixelInfo {
    PixelInfo::new(x, y, color_id).unwrap()
}

fn active(id: i32) -> Bot {
    let mut bot = Bot::new(id);
    assert_eq!(bot.step(Event::Connected), Action::Pull);
    bot
}

fn sending(id: i32, p: PixelInfo) -> Bot {
    let mut bot = active(id);
    assert_eq!(bot.step(Event::Pulled(Some(p))), Action::Send(PixelProvider::pack(p)));
    bot
}

fn pacing(id: i32) -> Bot {
    let mut bot = sending(id, pixel(1, 1, 1));
    assert_eq!(bot.step(Event::Sent), Action::Pace);
    bot
}

#[test]
fn retry_constants() {
    assert_eq!(MAX_ATTEMPTS, 5);
    assert_eq!(RETRY_SECS, 5);
}

#[test]
fn a_new_worker_is_connecting() {
    let bot = Bot::new(3);
    assert_eq!(bot.id(), 3);
    assert_eq!(bot.phase(), Phase::Connecting);
    assert_eq!(bot.exit(), None);
}

#[test]
fn a_failed_first_handshake_is_fatal() {
    let mut bot = Bot::new(0);
    assert_eq!(bot.step(Event::ConnectFailed), Action::Stop);
    assert_eq!(bot.phase(), Phase::Terminated);
    assert_eq!(bot.exit(), Some(Exit::HandshakeFailed));
    assert_eq!(bot.step(Event::Connected), Action::Stop);
    assert_eq!(bot.phase(), Phase::Terminated);
}

#[test]
fn a_connected_worker_pulls_and_sends_the_command() {
    let mut bot = active(1);
    assert_eq!(bot.phase(), Phase::Active);
    let p = pixel(10, 20, 3);
    let value: i32 = 10 + 20 * 1590 + 3 * 636000;
    assert_eq!(bot.step(Event::Pulled(Some(p))), Action::Send(value.to_le_bytes().to_vec()));
    assert_eq!(bot.step(Event::Sent), Action::Pace);
    assert_eq!(bot.step(Event::Elapsed), Action::Pull);
    assert_eq!(bot.phase(), Phase::Active);
}

#[test]
fn an_exhausted_source_ends_the_worker() {
    let mut bot = active(1);
    assert_eq!(bot.step(Event::Pulled(None)), Action::Stop);
    assert_eq!(bot.phase(), Phase::Terminated);
    assert_eq!(bot.exit(), Some(Exit::Exhausted));
}

#[test]
fn a_failing_send_is_tried_five_times_then_dropped() {
    let p = pixel(5, 6, 7);
    let frame = PixelProvider::pack(p);
    let mut bot = sending(2, p);
    let mut sends = 1;
    for _ in 0..4 {
        assert_eq!(bot.step(Event::SendFailed), Action::Retry);
        assert_eq!(bot.step(Event::Elapsed), Action::Send(frame.clone()));
        sends += 1;
    }
    assert_eq!(sends, 5);
    assert_eq!(bot.step(Event::SendFailed), Action::Retry);
    assert_eq!(bot.step(Event::Elapsed), Action::Pace);
    assert_eq!(bot.step(Event::Elapsed), Action::Pull);
    let q = pixel(6, 6, 0);
    assert_eq!(bot.step(Event::Pulled(Some(q))), Action::Send(PixelProvider::pack(q)));
}

#[test]
fn a_send_that_succeeds_on_retry_starts_the_pause() {
    let p = pixel(5, 6, 7);
    let mut bot = sending(2, p);
    assert_eq!(bot.step(Event::SendFailed), Action::Retry);
    assert_eq!(bot.step(Event::Elapsed), Action::Send(PixelProvider::pack(p)));
    assert_eq!(bot.step(Event::Sent), Action::Pace);
    assert_eq!(bot.step(Event::Elapsed), Action::Pull);
}

#[test]
fn frames_are_ignored_while_waiting() {
    let mut bot = pacing(4);
    for _ in 0..3 {
        assert_eq!(bot.step(Event::Inbound(Inbound::Frame)), Action::Continue);
        assert_eq!(bot.phase(), Phase::Active);
    }
    assert_eq!(bot.step(Event::Elapsed), Action::Pull);
}

#[test]
fn a_close_signal_reconnects_once_and_resumes() {
    for closing in [Inbound::Close, Inbound::ConnectionClosed, Inbound::AlreadyClosed] {
        let p = pixel(9, 9, 9);
        let mut bot = sending(5, p);
        assert_eq!(bot.step(Event::SendFailed), Action::Retry);
        assert_eq!(bot.step(Event::Elapsed), Action::Send(PixelProvider::pack(p)));
        assert_eq!(bot.step(Event::SendFailed), Action::Retry);
        assert_eq!(bot.step(Event::Inbound(closing)), Action::Connect);
        assert_eq!(bot.phase(), Phase::Reconnecting);
        assert_eq!(bot.step(Event::Inbound(closing)), Action::Continue);
        assert_eq!(bot.step(Event::Elapsed), Action::Continue);
        assert_eq!(bot.phase(), Phase::Reconnecting);
        assert_eq!(bot.step(Event::Connected), Action::Continue);
        assert_eq!(bot.phase(), Phase::Active);
        assert_eq!(bot.step(Event::Elapsed), Action::Send(PixelProvider::pack(p)));
        for _ in 0..2 {
            assert_eq!(bot.step(Event::SendFailed), Action::Retry);
            assert_eq!(bot.step(Event::Elapsed), Action::Send(PixelProvider::pack(p)));
        }
        assert_eq!(bot.step(Event::SendFailed), Action::Retry);
        assert_eq!(bot.step(Event::Elapsed), Action::Pace);
    }
}

#[test]
fn a_failed_reconnection_ends_the_worker() {
    let mut bot = pacing(6);
    assert_eq!(bot.step(Event::Inbound(Inbound::Close)), Action::Connect);
    assert_eq!(bot.step(Event::ConnectFailed), Action::Stop);
    assert_eq!(bot.phase(), Phase::Terminated);
    assert_eq!(bot.exit(), Some(Exit::ReconnectFailed));
    for event in [
        Event::Connected,
        Event::ConnectFailed,
        Event::Elapsed,
        Event::Sent,
        Event::SendFailed,
        Event::Pulled(None),
        Event::Pulled(Some(pixel(0, 0, 0))),
        Event::Inbound(Inbound::Close),
        Event::Inbound(Inbound::Frame),
    ] {
        assert_eq!(bot.step(event), Action::Stop);
        assert_eq!(bot.exit(), Some(Exit::ReconnectFailed));
    }
}

#[test]
fn other_transport_errors_are_fatal() {
    let mut bot = pacing(7);
    assert_eq!(bot.step(Event::Inbound(Inbound::Fault)), Action::Stop);
    assert_eq!(bot.exit(), Some(Exit::TransportFault));
    let mut bot = pacing(8);
    assert_eq!(bot.step(Event::Inbound(Inbound::End)), Action::Stop);
    assert_eq!(bot.exit(), Some(Exit::StreamEnded));
}

#[test]
fn events_out_of_turn_change_nothing() {
    let mut bot = Bot::new(9);
    assert_eq!(bot.step(Event::Elapsed), Action::Continue);
    assert_eq!(bot.step(Event::Pulled(Some(pixel(1, 2, 3)))), Action::Continue);
    assert_eq!(bot.step(Event::Inbound(Inbound::Close)), Action::Continue);
    assert_eq!(bot.phase(), Phase::Connecting);
    let mut bot = active(9);
    assert_eq!(bot.step(Event::Sent), Action::Continue);
    assert_eq!(bot.step(Event::SendFailed), Action::Continue);
    assert_eq!(bot.step(Event::Elapsed), Action::Continue);
    assert_eq!(bot.step(Event::Connected), Action::Continue);
    let p = pixel(1, 2, 3);
    assert_eq!(bot.step(Event::Pulled(Some(p))), Action::Send(PixelProvider::pack(p)));
    assert_eq!(bot.step(Event::Pulled(Some(pixel(4, 4, 4)))), Action::Continue);
    assert_eq!(bot.step(Event::Elapsed), Action::Continue);
    assert_eq!(bot.step(Event::Sent), Action::Pace);
}

#[test]
fn workers_are_independent() {
    let mut a = pacing(1);
    let mut b = pacing(2);
    assert_eq!(a.step(Event::Inbound(Inbound::Fault)), Action::Stop);
    assert_eq!(b.phase(), Phase::Active);
    assert_eq!(b.step(Event::Elapsed), Action::Pull);
    assert_eq!(a.phase(), Phase::Terminated);
}
