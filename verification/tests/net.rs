//! Direct transfers: codes, frames, admission, and both sides' machines.

use filesec::contacts::{Contact, ContactBook, PublicKey, Trust};
use filesec::net::code::{
    decode_symbol, decode_transfer_code, display_transfer_code, encode_transfer_secret,
    group_transfer_code, SECRET_SYMBOLS, TRANSFER_SECRET_LEN,
};
use filesec::net::concurrency::{
    PeerAddr, RateLimiter, Semaphore, BASE_BACKOFF, FAILURE_THRESHOLD, FORGET_AFTER, MAX_BACKOFF,
    SECOND,
};
use filesec::net::listener::{
    check_offer, expect_offer, greet_peer, handle_conn, import_received, lan_addr, listening,
    run_transfer, transfer_cancelled, transfer_size_acceptable, transfer_start, wait_decision, CommandStep, ConnError,
    ConnFailure, ConnNext, ConnStage, DecisionStep, Listener, Polled, Receiving, RecordStep,
    RecordType, TransferEnd, TransferReply, TransferStep, MAX_TRANSFER_SIZE, PROGRESS_INTERVAL, REFRESH_INTERVAL,
};
use filesec::net::natpmp::{
    be_u16, be_u32, bsd_gateway, external_request, check_response, exchange_start, lines, linux_gateway, map_request,
    parse_hex_u32, parse_ipv4, transact, windows_gateway, words, ExchangeStep, GatewayReply,
    MapReply, MapStep, PortMapping, OP_EXTERNAL, OP_MAP_TCP,
};
use filesec::net::sender::{
    expect_decision, offer_name, on_decision, resolve_message, run_send, stream_result, transfer_secret,
    unreachable_message, waiting_status, Answer, RecordWriter, SendReply, SendStep, CHUNK,
};
use filesec::net::wire::{
    read_frame, read_handshake_frame, read_step, write_frame, ByteReader, ErrorKind, ReadNext, MAX_FRAME,
    MAX_HANDSHAKE_FRAME,
};
use filesec::net::{NatStatus, NetCommand, NetEvent};
use filesec::store::VaultMeta;

const T0: u64 = 1_000_000_000_000;
const MILLI: u64 = 1_000_000;

fn ip(n: u8) -> PeerAddr {
    PeerAddr::V4(0x7f00_0000 + n as u32)
}

fn length_prefix(len: u32) -> Vec<u8> {
    len.to_be_bytes().to_vec()
}

#[test]
fn semaphore_caps_concurrent_permits() {
    let mut sem = Semaphore::new(2);
    let a = sem.try_acquire().expect("first permit");
    let b = sem.try_acquire().expect("second permit");
    assert!(sem.try_acquire().is_none(), "pool is full at capacity");
    assert_eq!(sem.available(), 0);
    sem.release(a);
    assert_eq!(sem.available(), 1);
    let _c = sem.try_acquire().expect("a freed permit is reusable");
    assert!(sem.try_acquire().is_none());
    sem.release(b);
}

#[test]
fn the_wait_doubles_up_to_a_minute() {
    let mut rl = RateLimiter::new();
    let waits = [0, 0, 0, 0, 1, 2, 4, 8, 16, 32, 60, 60];
    for (k, wait) in waits.iter().enumerate() {
        let t = T0 + k as u64 * SECOND;
        rl.record_failure(ip(1), t);
        let until = t + wait * SECOND;
        assert!(rl.allow(ip(1), until));
        assert_eq!(rl.allow(ip(1), until - 1), *wait == 0);
        assert!(rl.allow(ip(2), t));
    }
}

#[test]
fn rate_limiter_blocks_after_threshold_then_recovers() {
    let mut rl = RateLimiter::new();
    let t0 = T0;
    let peer = ip(9);

    // Below the threshold: still allowed.
    for _ in 0..(FAILURE_THRESHOLD - 1) {
        rl.record_failure(peer, t0);
        assert!(rl.allow(peer, t0));
    }
    // Crossing the threshold blocks the peer.
    rl.record_failure(peer, t0);
    assert!(!rl.allow(peer, t0), "peer must be blocked at the threshold");
    assert_eq!(rl.failure_count(peer), FAILURE_THRESHOLD);

    // Still blocked mid-window, allowed once the window elapses.
    assert!(!rl.allow(peer, t0 + BASE_BACKOFF / 2));
    assert!(rl.allow(peer, t0 + BASE_BACKOFF + MILLI));
}

#[test]
fn backoff_grows_and_caps() {
    let mut rl = RateLimiter::new();
    let t0 = T0;
    let peer = ip(10);
    // Push well past the threshold; the window must never exceed MAX_BACKOFF.
    for _ in 0..40 {
        rl.record_failure(peer, t0);
    }
    assert!(!rl.allow(peer, t0 + MAX_BACKOFF - MILLI));
    assert!(rl.allow(peer, t0 + MAX_BACKOFF + MILLI));
}

#[test]
fn success_resets_and_other_ips_are_independent() {
    let mut rl = RateLimiter::new();
    let t0 = T0;
    let (a, b) = (ip(1), ip(2));
    for _ in 0..FAILURE_THRESHOLD {
        rl.record_failure(a, t0);
    }
    assert!(!rl.allow(a, t0));
    assert!(rl.allow(b, t0), "an unrelated IP is unaffected");
    rl.record_success(a);
    assert!(rl.allow(a, t0), "a successful handshake clears the block");
    assert_eq!(rl.failure_count(a), 0);
}

#[test]
fn prune_forgets_stale_peers() {
    let mut rl = RateLimiter::new();
    let t0 = T0;
    rl.record_failure(ip(3), t0);
    rl.prune(t0 + FORGET_AFTER + SECOND);
    assert_eq!(rl.failure_count(ip(3)), 0);
}

#[test]
fn transfer_size_cap_rejects_above_ceiling() {
    assert!(transfer_size_acceptable(0));
    assert!(transfer_size_acceptable(MAX_TRANSFER_SIZE));
    assert!(!transfer_size_acceptable(MAX_TRANSFER_SIZE + 1));
    assert!(!transfer_size_acceptable(u64::MAX));
}

#[test]
fn secret_round_trips_through_display() {
    for seed in 0u8..32 {
        let mut secret = [0u8; TRANSFER_SECRET_LEN];
        for (i, b) in secret.iter_mut().enumerate() {
            *b = seed.wrapping_mul(37).wrapping_add((i as u8).wrapping_mul(101));
        }
        let display = display_transfer_code(&secret);
        // Grouped, uses only the Crockford alphabet + separators.
        assert!(display.contains('-'));
        assert_eq!(decode_transfer_code(&display), Some(secret));
    }
}

#[test]
fn decode_is_tolerant_of_case_spacing_and_lookalikes() {
    let secret = [0x9au8; TRANSFER_SECRET_LEN];
    let canon = encode_transfer_secret(&secret);
    // Same code re-typed lower-case, spaced, and with look-alike glyphs.
    let messy: String = canon
        .chars()
        .map(|c| match c {
            '0' => 'O',
            '1' => 'l',
            other => other.to_ascii_lowercase(),
        })
        .collect();
    let spaced = format!("  {}  ", group_transfer_code(&messy).replace('-', " "));
    assert_eq!(decode_transfer_code(&spaced), Some(secret));
}

#[test]
fn decode_rejects_wrong_length_and_bad_symbols() {
    assert_eq!(decode_transfer_code(""), None);
    assert_eq!(decode_transfer_code("ABCD-EFGH"), None); // too short
    let secret = [0x11u8; TRANSFER_SECRET_LEN];
    let canon = encode_transfer_secret(&secret);
    assert_eq!(decode_transfer_code(&format!("{canon}Z")), None); // too long
                                                                  // `U` is not in the Crockford alphabet and is not a folded look-alike.
    let with_bad = format!("U{}", &canon[1..]);
    assert_eq!(decode_transfer_code(&with_bad), None);
}

#[test]
fn canonical_form_has_expected_shape() {
    let crockford = b"0123456789ABCDEFGHJKMNPQRSTVWXYZ";
    for b in [0x00u8, 0x5a, 0xff] {
        let canon = encode_transfer_secret(&[b; TRANSFER_SECRET_LEN]);
        assert_eq!(canon.len(), SECRET_SYMBOLS);
        assert!(canon.bytes().all(|b| crockford.contains(&b)));
    }
    assert_eq!(encode_transfer_secret(&[0; 16]), "00000000000000000000000000");
    assert_eq!(encode_transfer_secret(&[0xff; 16]), "ZZZZZZZZZZZZZZZZZZZZZZZZZW");
    assert_eq!(decode_symbol('o'), Some(0));
    assert_eq!(decode_symbol('u'), None);
}

#[test]
fn record_writer_bounds_buffer_and_preserves_fragmented_content() {
    let data: Vec<u8> = (0..CHUNK * 20 + 123).map(|i| (i % 251) as u8).collect();
    let mut wire = Vec::new();
    let mut writer = RecordWriter::new(data.len() as u64, T0);
    let mut records = writer.write(&data[..17]);
    assert!(records.is_empty());
    records.extend(writer.write(&data[17..]));
    if let Some(tail) = writer.finish() {
        records.push(tail);
    }
    for r in &records {
        let mut record = vec![2u8];
        record.extend_from_slice(r);
        write_frame(&mut wire, &record).unwrap();
    }
    write_frame(&mut wire, &[3u8]).unwrap();
    let mut wire = ByteReader::new(wire);
    let mut restored = Vec::new();
    let mut receiving = Receiving::new(data.len() as u64, T0);
    loop {
        let frame = read_frame(&mut wire).unwrap();
        let (kind, body) = (frame[0], &frame[1..]);
        if kind == 3 {
            assert!(body.is_empty());
            break;
        }
        assert_eq!(kind, 2);
        assert!(body.len() <= CHUNK);
        let step = receiving.receive_into(RecordType::Data, body.len(), T0);
        assert!(matches!(step, Ok(RecordStep::Store { .. })));
        restored.extend_from_slice(body);
    }
    assert_eq!(restored, data);
    assert_eq!(wire.remaining(), 0);
    assert!(receiving.finish().is_ok());
}

#[test]
fn handshake_reader_rejects_oversized_before_body_read() {
    let mut c = ByteReader::new(length_prefix((MAX_HANDSHAKE_FRAME + 1) as u32));
    let err = read_handshake_frame(&mut c).unwrap_err();
    assert_eq!(err.kind(), ErrorKind::InvalidData);
}

#[test]
fn data_reader_rejects_oversized_before_body_read() {
    let mut c = ByteReader::new(length_prefix((MAX_FRAME + 1) as u32));
    let err = read_frame(&mut c).unwrap_err();
    assert_eq!(err.kind(), ErrorKind::InvalidData);
}

#[test]
fn a_frame_between_the_caps_is_data_only() {
    // A frame just over the handshake cap is a valid bulk data record but must
    // be refused when read as a handshake/control frame.
    let len = (MAX_HANDSHAKE_FRAME + 1) as u32;
    let mut frame = length_prefix(len);
    frame.resize(frame.len() + len as usize, 0u8);
    assert!(read_handshake_frame(&mut ByteReader::new(frame.clone())).is_err());
    let got = read_frame(&mut ByteReader::new(frame)).unwrap();
    assert_eq!(got.len(), len as usize);
}

#[test]
fn write_then_read_roundtrips() {
    let mut buf = Vec::new();
    write_frame(&mut buf, b"hello").unwrap();
    assert_eq!(
        read_handshake_frame(&mut ByteReader::new(buf)).unwrap(),
        b"hello"
    );
}

#[test]
fn a_cut_frame_is_an_early_end() {
    let mut buf = Vec::new();
    write_frame(&mut buf, b"hello").unwrap();
    buf.truncate(6);
    let err = read_frame(&mut ByteReader::new(buf)).unwrap_err();
    assert_ne!(err.kind(), ErrorKind::InvalidData);
    assert!(read_frame(&mut ByteReader::new(vec![0, 0])).is_err());
}

#[test]
fn progress_is_shown_in_steps_and_at_the_end() {
    let mut w = RecordWriter::new(100, T0);
    assert_eq!(w.record_sent(40, T0 + 1), None);
    assert_eq!(w.record_sent(10, T0 + PROGRESS_INTERVAL), Some((50, 100)));
    assert_eq!(w.record_sent(50, T0 + PROGRESS_INTERVAL + 1), Some((100, 100)));
    assert!(!w.cancel_requested(&Polled::Empty));
    assert!(!w.cancel_requested(&Polled::Command(NetCommand::AcceptOffer)));
    assert_eq!(stream_result(&w, Some("io".to_string())), Err("io".to_string()));
    assert!(w.cancel_requested(&Polled::Disconnected));
    assert!(w.cancelled());
    assert_eq!(
        stream_result(&w, Some("io".to_string())),
        Err("Transfer cancelled.".to_string())
    );
}

#[test]
fn a_sender_that_breaks_the_protocol_is_cut_off() {
    let mut r = Receiving::new(10, T0);
    assert_eq!(
        r.receive_into(RecordType::Data, 0, T0).err().unwrap(),
        "protocol error: empty data record"
    );
    assert_eq!(
        r.receive_into(RecordType::Data, 11, T0).err().unwrap(),
        "the sender exceeded the declared size"
    );
    assert_eq!(
        r.receive_into(RecordType::Offer, 1, T0).err().unwrap(),
        "protocol error during the transfer"
    );
    assert!(matches!(
        r.receive_into(RecordType::Data, 9, T0),
        Ok(RecordStep::Store { progress: false })
    ));
    assert_eq!(
        r.finish(),
        Err("the transfer ended early (size mismatch)".to_string())
    );
    assert!(matches!(
        r.receive_into(RecordType::Data, 1, T0),
        Ok(RecordStep::Store { progress: true })
    ));
    assert!(matches!(
        r.receive_into(RecordType::Done, 0, T0),
        Ok(RecordStep::Finish)
    ));
    assert!(r.receive_into(RecordType::Done, 1, T0).is_err());
    assert_eq!(r.finish(), Ok(()));
}

fn key(n: u8, name: &str) -> PublicKey {
    PublicKey {
        fpr: [n; 32],
        name: name.to_string(),
        display_name: name.to_string(),
        safety_number: format!("SN{n}"),
        hybrid: false,
    }
}

#[test]
fn only_verified_peers_may_send() {
    let mut book = ContactBook::new();
    book.contacts.push(Contact {
        key: key(1, "Alice"),
        trust: Trust::Verified,
        verified_at: Some(86_400),
    });
    book.contacts.push(Contact {
        key: key(2, "Bob"),
        trust: Trust::Unverified,
        verified_at: None,
    });
    let (event, gate) = greet_peer(&book, &[1; 32]);
    assert!(matches!(event, NetEvent::PeerConnected { verified: true, .. }));
    assert_eq!(gate.ok().unwrap().as_deref(), Some("Alice"));
    let (event, gate) = greet_peer(&book, &[2; 32]);
    assert!(matches!(event, NetEvent::PeerConnected { verified: false, .. }));
    let e: ConnError = gate.err().unwrap();
    assert!(e.user_facing && !e.rate_limit);
    assert_eq!(
        e.message,
        "Refused a transfer from an unverified sender (0202020202020202…). Add and verify them in Contacts first."
    );
    assert!(greet_peer(&book, &[3; 32]).1.is_err());
    // A transfer starts with the first, and is over at once with the others.
    let (event, step) = transfer_start(&book, &[1; 32]);
    assert!(matches!(event, NetEvent::PeerConnected { verified: true, .. }));
    assert!(matches!(step, TransferStep::ReadOffer));
    for peer in [[2; 32], [3; 32]] {
        let (event, step) = transfer_start(&book, &peer);
        assert!(matches!(event, NetEvent::PeerConnected { verified: false, .. }));
        let record = TransferReply::Record {
            kind: RecordType::Offer,
        };
        match run_transfer(step, &peer, record) {
            TransferStep::Done(TransferEnd::Failed(e)) => assert!(e.user_facing && !e.rate_limit),
            _ => panic!("must be refused"),
        }
    }
}

#[test]
fn offers_are_checked_before_the_user_is_asked() {
    assert!(check_offer(&[1; 32], &[1; 32], MAX_TRANSFER_SIZE).is_none());
    assert_eq!(
        check_offer(&[1; 32], &[2; 32], 1).unwrap().message,
        "the offer's sender does not match the connected identity"
    );
    assert_eq!(
        check_offer(&[1; 32], &[1; 32], MAX_TRANSFER_SIZE + 1)
            .unwrap()
            .message,
        "the offered transfer is too large to accept"
    );
    assert!(expect_offer(RecordType::Offer).is_none());
    assert!(expect_offer(RecordType::Data).is_some());
    assert!(import_received(&[1; 32], &[1; 32]).is_ok());
    assert!(import_received(&[1; 32], &[2; 32]).is_err());
}

#[test]
fn waiting_for_the_user_ends() {
    assert!(matches!(
        wait_decision(false, Polled::Command(NetCommand::AcceptOffer), 0, 10),
        DecisionStep::Accept
    ));
    assert!(matches!(
        wait_decision(false, Polled::Command(NetCommand::RejectOffer), 0, 10),
        DecisionStep::Reject
    ));
    assert!(matches!(
        wait_decision(false, Polled::Empty, 9, 10),
        DecisionStep::Wait
    ));
    match wait_decision(false, Polled::Empty, 10, 10) {
        DecisionStep::Failed(e) => {
            assert_eq!(e.message, "No response to the transfer offer (timed out).")
        }
        _ => panic!("must time out"),
    }
    match wait_decision(true, Polled::Command(NetCommand::AcceptOffer), 0, 10) {
        DecisionStep::Failed(e) => assert!(!e.user_facing),
        _ => panic!("must stop"),
    }
    assert!(transfer_cancelled(false, &Polled::Command(NetCommand::Stop)));
    assert!(!transfer_cancelled(false, &Polled::Empty));
}

#[test]
fn failures_before_the_proof_are_silent_and_count() {
    for stage in [
        ConnStage::SetTimeouts,
        ConnStage::NewResponder,
        ConnStage::ReadHello,
        ConnStage::CheckProof,
    ] {
        match handle_conn(stage, Some(ConnFailure::Outside("x".to_string()))) {
            ConnNext::Failed(e) => assert!(e.rate_limit && !e.user_facing),
            ConnNext::Go(_) => panic!("must fail"),
        }
    }
    match handle_conn(ConnStage::CheckConfirm, Some(ConnFailure::WrongIdentity)) {
        ConnNext::Failed(e) => {
            assert!(!e.rate_limit && e.user_facing);
            assert_eq!(
                e.message,
                "Refused: a different contact connected than the one you're expecting."
            );
        }
        ConnNext::Go(_) => panic!("must fail"),
    }
    match handle_conn(ConnStage::Claim, Some(ConnFailure::Busy)) {
        ConnNext::Failed(e) => assert!(!e.rate_limit && !e.user_facing),
        ConnNext::Go(_) => panic!("must fail"),
    }
    assert!(matches!(
        handle_conn(ConnStage::SetTransferTimeouts, None),
        ConnNext::Go(ConnStage::Transfer)
    ));
}

#[test]
fn the_accept_loop_admits_and_backs_off() {
    let mut l = Listener::new(true, T0);
    assert_eq!(
        l.on_command(Polled::Command(NetCommand::AcceptOffer)),
        CommandStep::Forward(NetCommand::AcceptOffer)
    );
    assert_eq!(l.on_command(Polled::Empty), CommandStep::Continue);
    let mut permits = Vec::new();
    for _ in 0..8 {
        permits.push(l.take_on(ip(1), T0).expect("a slot"));
    }
    assert!(l.take_on(ip(1), T0).is_none());
    for p in permits {
        let shown = l.service(p, ip(1), T0, Some(ConnError::probe("x".to_string())));
        assert!(shown.is_none());
    }
    assert!(l.take_on(ip(1), T0).is_none(), "backed off");
    let p = l.take_on(ip(2), T0).expect("another address");
    assert_eq!(
        l.service(p, ip(2), T0, Some(ConnError::shown("see".to_string()))),
        Some("see".to_string())
    );
    l.proven(ip(1));
    assert!(l.take_on(ip(1), T0).is_some());
    assert!(l.claim());
    assert!(!l.claim());
    l.release();
    assert!(l.claim());
    assert!(!l.tick(T0 + 1));
    assert!(l.tick(T0 + REFRESH_INTERVAL));
    assert!(!l.tick(T0 + REFRESH_INTERVAL + 1));
    assert_eq!(l.on_command(Polled::Disconnected), CommandStep::Stop);
    assert!(l.stopped);
}

#[test]
fn listening_is_announced() {
    assert_eq!(lan_addr(Some("192.168.1.5"), 4711), "192.168.1.5:4711");
    assert_eq!(lan_addr(None, 80), "this machine:80");
    match listening("a".to_string(), Some(Err("no".to_string())), "c".to_string()) {
        NetEvent::Listening {
            public_addr,
            nat: NatStatus::Unavailable(m),
            ..
        } => {
            assert!(public_addr.is_none());
            assert_eq!(m, "no");
        }
        _ => panic!("unavailable"),
    }
}

fn vault_meta() -> VaultMeta {
    VaultMeta {
        id: "i".to_string(),
        name: "n".to_string(),
        created_at: 0,
        modified_at: 0,
        file_count: 1,
        total_size: 1,
    }
}

#[test]
fn a_transfer_goes_stage_by_stage() {
    let peer = [1u8; 32];
    let record = |kind: RecordType| TransferReply::Record { kind };
    let offer = |n: u8, size: u64| TransferReply::Offer {
        sender_fpr: [n; 32],
        size,
    };
    let s = run_transfer(TransferStep::ReadOffer, &peer, record(RecordType::Offer));
    assert!(matches!(s, TransferStep::DecodeOffer));
    let s = run_transfer(s, &peer, offer(1, 9));
    assert!(matches!(s, TransferStep::AskUser { size: 9 }));
    match run_transfer(TransferStep::DecodeOffer, &peer, offer(2, 9)) {
        TransferStep::Done(TransferEnd::Failed(e)) => assert_eq!(
            e.message,
            "the offer's sender does not match the connected identity"
        ),
        _ => panic!("must be refused"),
    }
    let s = run_transfer(s, &peer, TransferReply::Decided(true));
    let s = run_transfer(s, &peer, TransferReply::Went);
    assert!(matches!(s, TransferStep::CreateTemp { size: 9 }));
    let s = run_transfer(s, &peer, TransferReply::Went);
    let s = run_transfer(s, &peer, TransferReply::Went);
    assert!(matches!(s, TransferStep::Verify));
    let s = run_transfer(s, &peer, TransferReply::Signed { signer: [1; 32] });
    let s = run_transfer(
        s,
        &peer,
        TransferReply::Imported {
            meta: vault_meta(),
            file_count: 1,
        },
    );
    assert!(matches!(&s, TransferStep::Wipe(_)));
    let s = run_transfer(s, &peer, TransferReply::Went);
    assert!(matches!(
        s,
        TransferStep::Done(TransferEnd::Received { file_count: 1, .. })
    ));
    // Another signer: the temp file is wiped, nothing is taken in.
    let s = run_transfer(
        TransferStep::Verify,
        &peer,
        TransferReply::Signed { signer: [2; 32] },
    );
    match s {
        TransferStep::Wipe(TransferEnd::Failed(e)) => assert_eq!(
            e.message,
            "the file's signature does not match the connected sender"
        ),
        _ => panic!("must be wiped"),
    }
    match run_transfer(TransferStep::ReadOffer, &peer, record(RecordType::Data)) {
        TransferStep::Done(TransferEnd::Failed(e)) => {
            assert_eq!(e.message, "protocol error: expected a transfer offer")
        }
        _ => panic!("must be refused"),
    }
    let s = run_transfer(
        TransferStep::Answer {
            accept: false,
            size: 9,
        },
        &peer,
        TransferReply::Went,
    );
    assert!(matches!(s, TransferStep::Done(TransferEnd::Declined)));
    let s = run_transfer(
        TransferStep::Receive { size: 9 },
        &peer,
        TransferReply::Failed("cut".to_string()),
    );
    assert!(matches!(s, TransferStep::Wipe(TransferEnd::Failed(_))));
}

#[test]
fn sending_goes_stage_by_stage() {
    let mut s = SendStep::OpenVault;
    for _ in 0..9 {
        s = run_send(s, SendReply::Went);
    }
    assert!(matches!(s, SendStep::AwaitDecision));
    let answer = |kind: RecordType, accept: bool| SendReply::Answer { kind, accept };
    assert!(matches!(
        run_send(SendStep::AwaitDecision, answer(RecordType::OfferDecision, false)),
        SendStep::Declined
    ));
    assert!(matches!(
        run_send(SendStep::AwaitDecision, answer(RecordType::Data, true)),
        SendStep::Failed(e) if e == "protocol error: expected a decision"
    ));
    let s = run_send(s, answer(RecordType::OfferDecision, true));
    let s = run_send(s, SendReply::Went);
    let s = run_send(s, SendReply::Went);
    assert!(matches!(s, SendStep::Sent));
    assert!(matches!(
        run_send(SendStep::ReadAuth, SendReply::Failed("x".to_string())),
        SendStep::Failed(e) if e == "x"
    ));
}

#[test]
fn sender_texts() {
    assert_eq!(
        unreachable_message("h", 9, "refused"),
        "Couldn't reach the receiver at h:9. Make sure they've started listening and the address and port are right. (refused)"
    );
    assert_eq!(resolve_message("h", Some("bad")), "could not resolve h: bad");
    assert_eq!(resolve_message("h", None), "no address found for h");
    assert_eq!(waiting_status(&key(1, "Bob")), "Waiting for Bob to accept…");
    assert_eq!(
        waiting_status(&key(1, "")),
        "Waiting for the receiver to accept…"
    );
    assert_eq!(offer_name("Tax"), "Tax.fsec");
    assert_eq!(on_decision(true), Answer::Stream);
    assert_eq!(on_decision(false), Answer::Declined);
    assert!(expect_decision(RecordType::OfferDecision).is_none());
    assert!(expect_decision(RecordType::Done).is_some());
    let code = display_transfer_code(&[7; 16]);
    assert_eq!(transfer_secret(&Some(code)), Ok([7; 16]));
    assert!(transfer_secret(&None).is_err());
    assert!(transfer_secret(&Some("x".to_string())).is_err());
}

#[test]
fn natpmp_messages() {
    assert_eq!(be_u16(&[1, 2, 3], 1), Some(0x0203));
    assert_eq!(be_u16(&[1, 2, 3], 2), None);
    assert_eq!(be_u32(&[0, 1, 2, 3, 4], 1), Some(0x0102_0304));
    assert_eq!(be_u32(&[0, 1, 2], 0), None);
    assert_eq!(external_request(), vec![0, 0]);
    assert_eq!(
        map_request(0x1234, 0x5678, 3600),
        vec![0, 2, 0, 0, 0x12, 0x34, 0x56, 0x78, 0, 0, 0x0e, 0x10]
    );
    assert_eq!(check_response(&[0, 128, 0, 0], OP_EXTERNAL, 4), None);
    assert_eq!(
        check_response(&[0, 128], OP_EXTERNAL, 4),
        Some("short NAT-PMP response")
    );
    assert_eq!(
        check_response(&[1, 128, 0, 0], OP_EXTERNAL, 4),
        Some("unexpected NAT-PMP version")
    );
    assert_eq!(
        check_response(&[0, 128, 0, 0], OP_MAP_TCP, 4),
        Some("unexpected NAT-PMP opcode")
    );
    assert_eq!(
        check_response(&[0, 128, 0, 1], OP_EXTERNAL, 4),
        Some("the gateway refused the NAT-PMP request")
    );
}

#[test]
fn a_silent_gateway_is_asked_four_times() {
    let mut x = exchange_start();
    let mut waits = vec![x.wait];
    loop {
        match transact(x, GatewayReply::Quiet, OP_EXTERNAL, 12) {
            ExchangeStep::Again(next) => {
                waits.push(next.wait);
                x = next;
            }
            ExchangeStep::Failed(e) => {
                assert_eq!(e, "no response from the gateway");
                break;
            }
            ExchangeStep::Done(_) => panic!("nothing came"),
        }
    }
    assert_eq!(waits, vec![250, 500, 1000, 2000]);
}

#[test]
fn mapping_a_port_goes_step_by_step() {
    let gw = [192, 168, 1, 1];
    let step = PortMapping::create(MapStep::FindGateway, 4000, MapReply::Gateway(Some(gw)));
    let answer = vec![0, 128, 0, 0, 0, 0, 0, 0, 203, 0, 113, 7];
    let step = PortMapping::create(step, 4000, MapReply::Answer(Ok(answer)));
    let answer = vec![0, 130, 0, 0, 0, 0, 0, 0, 0x0f, 0xa0, 0x10, 0x01, 0, 0, 0x0e, 0x10];
    match PortMapping::create(step, 4000, MapReply::Answer(Ok(answer))) {
        MapStep::Done(m) => {
            assert_eq!(m.public_addr(), "203.0.113.7:4097");
            assert_eq!(m.internal_port, 4000);
            assert_eq!(m.refresh(), map_request(4000, 4097, 3600));
            assert_eq!(m.release(), map_request(4000, 0, 0));
            assert_eq!(PortMapping::refresh_interval_secs(), 1800);
        }
        _ => panic!("must be mapped"),
    }
    match PortMapping::create(MapStep::FindGateway, 1, MapReply::Gateway(None)) {
        MapStep::Failed(e) => {
            assert_eq!(e, "could not find the router's address (no default gateway)")
        }
        _ => panic!("no gateway"),
    }
    let ask = MapStep::AskAddress { gateway: gw };
    match PortMapping::create(ask, 1, MapReply::Answer(Err("io".to_string()))) {
        MapStep::Failed(e) => assert_eq!(e, "the router did not report a public address: io"),
        _ => panic!("no address"),
    }
    let ask = MapStep::AskPort {
        gateway: gw,
        public_ip: gw,
    };
    match PortMapping::create(ask, 1, MapReply::Answer(Ok(vec![0; 11]))) {
        MapStep::Failed(e) => assert_eq!(
            e,
            "the router refused to open a port: malformed mapping response"
        ),
        _ => panic!("no port"),
    }
}

#[test]
fn gateways_are_found_in_each_table() {
    let table = "Iface\tDestination\tGateway\nlo 0000007F 00000000\neth0 00000000 00000000\r\neth0 00000000 0101A8C0 0003\n";
    assert_eq!(linux_gateway(table), Some([192, 168, 1, 1]));
    assert_eq!(linux_gateway("Iface Destination Gateway\neth0 00000000\n"), None);
    assert_eq!(linux_gateway(""), None);
    assert_eq!(
        bsd_gateway("   route to: default\n    gateway: 10.0.0.1\n"),
        Some([10, 0, 0, 1])
    );
    assert_eq!(bsd_gateway("gateway: none"), None);
    assert_eq!(windows_gateway("\r\n 172.16.0.1 \r\n"), Some([172, 16, 0, 1]));
    assert_eq!(windows_gateway("x"), None);
    assert_eq!(parse_ipv4("1.2.3.255"), Some([1, 2, 3, 255]));
    for bad in ["1.2.3", "1.2.3.256", "01.2.3.4", "1.2.3.4.", "a.2.3.4", ""] {
        assert_eq!(parse_ipv4(bad), None);
    }
    assert_eq!(parse_hex_u32("+ff"), Some(255));
    assert_eq!(parse_hex_u32("100000000"), None);
    assert_eq!(parse_hex_u32("g"), None);
    assert_eq!(parse_hex_u32("+"), None);
    assert_eq!(words(" a\tbc \u{2003}d"), vec!["a", "bc", "d"]);
    assert_eq!(lines("a\r\nb\n\nc\r"), vec!["a", "b", "", "c\r"]);
}

#[test]
fn no_read_is_asked_for_after_the_deadline() {
    assert_eq!(read_step(0, 4, false, 9, 10), ReadNext::Read);
    assert_eq!(read_step(3, 4, false, 9, 10), ReadNext::Read);
    assert_eq!(read_step(3, 4, false, 10, 10), ReadNext::TooLate);
    assert_eq!(read_step(3, 4, true, 9, 10), ReadNext::Cancelled);
    assert_eq!(read_step(3, 4, true, 11, 10), ReadNext::Cancelled);
    // What is complete counts, however late.
    assert_eq!(read_step(4, 4, true, 11, 10), ReadNext::Done);
    assert_eq!(read_step(0, 0, false, 11, 10), ReadNext::Done);
}
