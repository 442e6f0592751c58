use base64::engine::general_purpose::STANDARD;
use base64::Engine;
use boringtun::x25519::{PublicKey, StaticSecret};

use wg_boringtun::crew::{next_stop_step, Crew, StopStep};
use wg_boringtun::error::TunnelError;
use wg_boringtun::poll::PollOutcome;
use wg_boringtun::runtime::{
    force_tunnel_handshake, get_persistent_keepalive_seconds, get_tick_count,
    get_tunnel_socket_fd, get_tunnel_stats, get_tunnel_tick_count, handle_tunn_result,
    timer_delay_for_network_write, PacketAction, TickCounter, TunnelRuntime,
};
use wg_boringtun::settings::{create_tunnel, PeerAddress};
use wg_boringtun::startup::{
    begin_traffic, start_step_taken, start_tunnel, StartCleanup, StartDecision, StartProgress,
    StartStep,
};
use wg_boringtun::wireguard::{
    has_counter_in_range, holds_data, should_flush_again, wireguard_message_type, TunnOutcome,
    TunnStats, WG_BUFFER_SIZE,
};
use wg_boringtun::worker::{
    begin_tun_round, begin_udp_round, tun_acted, tun_failed, tun_polled, tun_read, udp_acted,
    udp_failed, udp_polled, udp_received, PollEvent, TunStage, UdpStage,
};

const CLIENT: PeerAddress = PeerAddress::V4 { address: 0x0a00_0001, port: 40000 };
const SERVER: PeerAddress = PeerAddress::V4 { address: 0x0a00_0002, port: 51820 };
const NOW: u64 = 1_000_000;

fn public_key(private_key: u8) -> String {
    let secret = StaticSecret::from([private_key; 32]);
    STANDARD.encode(PublicKey::from(&secret).as_bytes())
}

fn tunnel(own: u8, other: u8, preshared: &str, keepalive: u32, peer: PeerAddress) -> TunnelRuntime {
    let own = STANDARD.encode([own; 32]);
    match create_tunnel(&own, &public_key(other), preshared, "host", 1, keepalive, 1280) {
        Ok(settings) => TunnelRuntime::new(&settings, peer, 7),
        Err(error) => panic!("{}", error.message()),
    }
}

fn client(keepalive: u32) -> TunnelRuntime {
    tunnel(11, 22, "", keepalive, SERVER)
}

fn server() -> TunnelRuntime {
    tunnel(22, 11, "", 0, CLIENT)
}

fn buffer() -> Vec<u8> {
    vec![0; WG_BUFFER_SIZE]
}

fn packet(last: u8, len: usize) -> Vec<u8> {
    let mut packet = vec![0; len];
    packet[0] = 0x45;
    packet[2] = (len / 256) as u8;
    packet[3] = (len % 256) as u8;
    packet[9] = 1;
    packet[12] = 10;
    packet[16] = 10;
    packet[19] = last;
    packet
}

fn sent(action: PacketAction) -> Vec<u8> {
    match action {
        PacketAction::SendToPeer(data) => data,
        _ => panic!("nothing is to be sent"),
    }
}

fn received(runtime: &mut TunnelRuntime, source: PeerAddress, data: &[u8]) -> PacketAction {
    match runtime.receive_datagram(source, data, &mut buffer()) {
        Some(action) => action,
        None => panic!("the datagram was ignored"),
    }
}

fn written(action: PacketAction) -> Vec<u8> {
    match action {
        PacketAction::WriteToTun(data) => data,
        _ => panic!("nothing is to be written"),
    }
}

fn shake_hands(one: &mut TunnelRuntime, other: &mut TunnelRuntime) {
    let initiation = sent(one.force_handshake(&mut buffer()));
    let response = sent(received(other, CLIENT, &initiation));
    let keepalive = sent(received(one, SERVER, &response));
    assert!(matches!(received(other, CLIENT, &keepalive), PacketAction::Idle));
}

#[test]
fn new_tunnel_is_at_rest() {
    let runtime = client(25);
    assert!(!runtime.is_running());
    assert_eq!(get_tunnel_socket_fd(&runtime), 7);
    assert_eq!(get_tunnel_tick_count(&runtime), 0);
    assert_eq!(get_persistent_keepalive_seconds(&runtime), 25);
    assert_eq!(runtime.next_timer_timeout_ms(NOW), -1);
    let stats = get_tunnel_stats(&runtime, NOW);
    assert!(!stats.running);
    assert_eq!(stats.tx_bytes, 0);
    assert_eq!(stats.rx_bytes, 0);
    assert_eq!(stats.latest_handshake, None);
    assert_eq!(stats.latest_packet_sent_millis, None);
    assert_eq!(stats.loss_bits, 0);
    assert_eq!(stats.rtt_millis, None);
    assert_eq!(stats.tun_read_last, "");
    assert_eq!(stats.tun_write_last, "");
}

#[test]
fn handshake_carries_packets_both_ways() {
    let mut one = client(0);
    let mut other = server();
    shake_hands(&mut one, &mut other);

    let mut request = packet(1, 60);
    let message = sent(one.read_tun_packet(&mut request, &mut buffer()));
    assert_eq!(message.len(), 92);
    assert_eq!(wireguard_message_type(&message), Some(4));
    assert_eq!(written(received(&mut other, CLIENT, &message)), packet(1, 60));

    let mut reply = packet(2, 1280);
    let message = sent(other.read_tun_packet(&mut reply, &mut buffer()));
    let action = received(&mut one, SERVER, &message);
    assert_eq!(one.complete(&action, true, NOW), 0);
    assert_eq!(written(action), packet(2, 1280));

    let stats = get_tunnel_stats(&one, NOW);
    assert_eq!(stats.tx_bytes, 60);
    assert_eq!(stats.rx_bytes, 1280);
    assert!(stats.latest_handshake.is_some());
    assert!(stats.rtt_millis.is_some());
    assert_eq!(f32::from_bits(stats.loss_bits), 1.0 - 1.0f32 / 1.0);
    assert_eq!(stats.tun_read_packets, 1);
    assert_eq!(stats.udp_read_packets, 2);
    assert_eq!(stats.tun_write_packets, 1);
    assert_eq!(stats.tun_read_last, "ipv4 icmp 10.0.0.0 -> 10.0.0.1");
    assert_eq!(stats.tun_write_last, "ipv4 icmp 10.0.0.0 -> 10.0.0.2");
}

#[test]
fn handshake_initiation_names_its_tunnel() {
    let mut runtime = client(0);
    let initiation = sent(force_tunnel_handshake(&mut runtime, &mut buffer()));
    assert_eq!(initiation.len(), 148);
    assert_eq!(wireguard_message_type(&initiation), Some(1));
    assert_eq!(&initiation[5..8], &[1, 0, 0]);
}

#[test]
fn response_names_the_initiator() {
    let mut one = client(0);
    let mut other = server();
    let initiation = sent(one.force_handshake(&mut buffer()));
    let response = sent(received(&mut other, CLIENT, &initiation));
    assert_eq!(response.len(), 92);
    assert_eq!(&response[8..12], &initiation[4..8]);
    let keepalive = sent(received(&mut one, SERVER, &response));
    assert_eq!(keepalive.len(), 32);
    assert_eq!(&keepalive[4..8], &response[4..8]);
}

#[test]
fn preshared_key_must_match() {
    let secret = STANDARD.encode([5; 32]);
    let mut one = tunnel(11, 22, &secret, 0, SERVER);
    let mut other = server();
    let initiation = sent(one.force_handshake(&mut buffer()));
    let response = sent(received(&mut other, CLIENT, &initiation));
    assert!(matches!(received(&mut one, SERVER, &response), PacketAction::Discard));

    let mut other = tunnel(22, 11, &secret, 0, CLIENT);
    shake_hands(&mut one, &mut other);
}

#[test]
fn packets_wait_for_the_handshake_and_keep_their_order() {
    let mut one = client(0);
    let mut other = server();
    let initiation = sent(one.read_tun_packet(&mut packet(1, 40), &mut buffer()));
    assert_eq!(wireguard_message_type(&initiation), Some(1));
    let action = one.read_tun_packet(&mut packet(2, 50), &mut buffer());
    assert!(matches!(action, PacketAction::Idle));

    let response = sent(received(&mut other, CLIENT, &initiation));
    let keepalive = sent(received(&mut one, SERVER, &response));
    received(&mut other, CLIENT, &keepalive);

    let (first, again) = one.flush_queued(&mut buffer());
    assert!(again);
    assert_eq!(written(received(&mut other, CLIENT, &sent(first))), packet(1, 40));
    let (second, again) = one.flush_queued(&mut buffer());
    assert!(again);
    assert_eq!(written(received(&mut other, CLIENT, &sent(second))), packet(2, 50));
    let (rest, again) = one.flush_queued(&mut buffer());
    assert!(!again);
    assert!(matches!(rest, PacketAction::Idle));
}

#[test]
fn flushing_without_a_session_keeps_what_waits() {
    let mut one = client(0);
    let action = one.read_tun_packet(&mut packet(1, 40), &mut buffer());
    assert!(matches!(action, PacketAction::SendToPeer(_)));
    let (action, again) = one.flush_queued(&mut buffer());
    assert!(!again);
    assert!(matches!(action, PacketAction::Idle));
    let mut other = server();
    shake_hands(&mut one, &mut other);
    let (first, again) = one.flush_queued(&mut buffer());
    assert!(again);
    assert_eq!(written(received(&mut other, CLIENT, &sent(first))), packet(1, 40));
}

#[test]
fn overfull_queue_drops_what_comes_last() {
    let mut one = client(0);
    let mut other = server();
    for index in 0..257usize {
        one.read_tun_packet(&mut packet((index % 250) as u8, 40 + index), &mut buffer());
    }
    shake_hands(&mut one, &mut other);
    let mut count = 0;
    loop {
        let (action, again) = one.flush_queued(&mut buffer());
        if !again {
            break;
        }
        assert_eq!(sent(action).len(), 72 + count);
        count += 1;
    }
    assert_eq!(count, 256);
}

#[test]
fn quiet_packets_are_counted_and_not_sent() {
    let mut runtime = client(0);
    let mut mdns = packet(251, 28);
    mdns[9] = 17;
    mdns[16] = 224;
    assert!(matches!(runtime.read_tun_packet(&mut mdns, &mut buffer()), PacketAction::Discard));
    assert!(matches!(runtime.read_tun_packet(&mut [], &mut buffer()), PacketAction::Discard));
    let stats = get_tunnel_stats(&runtime, NOW);
    assert_eq!(stats.tun_read_packets, 1);
    assert_eq!(stats.tun_dropped_packets, 1);
    assert_eq!(stats.tun_read_last, "ipv4 udp 10.0.0.0:0 -> 224.0.0.251:0 len=28");
}

#[test]
fn segment_size_is_clamped_on_the_way() {
    let mut one = client(0);
    let mut other = server();
    shake_hands(&mut one, &mut other);
    let mut syn = packet(9, 44);
    syn[9] = 6;
    syn[32] = 0x60;
    syn[33] = 0x02;
    syn[40] = 2;
    syn[41] = 4;
    syn[42] = 0x05;
    syn[43] = 0xb4;
    let message = sent(one.read_tun_packet(&mut syn, &mut buffer()));
    let arrived = written(received(&mut other, CLIENT, &message));
    assert_eq!(&arrived[42..44], &[0x04, 0xd8]);
    assert_eq!(arrived, syn);
}

#[test]
fn datagrams_of_strangers_are_ignored() {
    let mut runtime = server();
    let initiation = sent(client(0).force_handshake(&mut buffer()));
    let stranger = PeerAddress::V4 { address: 0x0a00_0001, port: 40001 };
    assert!(runtime.receive_datagram(stranger, &initiation, &mut buffer()).is_none());
    assert_eq!(get_tunnel_stats(&runtime, NOW).udp_read_packets, 0);
    assert!(runtime.receive_datagram(CLIENT, &initiation, &mut buffer()).is_some());
    assert_eq!(get_tunnel_stats(&runtime, NOW).udp_read_packets, 1);
}

#[test]
fn replayed_and_damaged_data_is_discarded() {
    let mut one = client(0);
    let mut other = server();
    shake_hands(&mut one, &mut other);
    let message = sent(one.read_tun_packet(&mut packet(1, 60), &mut buffer()));
    let mut damaged = message.clone();
    damaged[40] ^= 1;
    assert!(matches!(received(&mut other, CLIENT, &damaged), PacketAction::Discard));
    assert_eq!(written(received(&mut other, CLIENT, &message)), packet(1, 60));
    assert!(matches!(received(&mut other, CLIENT, &message), PacketAction::Discard));
}

#[test]
fn padding_behind_a_packet_is_cut_off() {
    let mut one = client(0);
    let mut other = server();
    shake_hands(&mut one, &mut other);
    let mut padded = packet(1, 60);
    padded.extend_from_slice(&[0; 4]);
    let message = sent(one.read_tun_packet(&mut padded, &mut buffer()));
    assert_eq!(written(received(&mut other, CLIENT, &message)), packet(1, 60));

    let mut six = vec![0; 64];
    six[0] = 0x60;
    six[5] = 20;
    six[6] = 59;
    let message = sent(one.read_tun_packet(&mut six.clone(), &mut buffer()));
    assert_eq!(written(received(&mut other, CLIENT, &message)), six[..60]);

    let mut overlong = packet(1, 60);
    overlong[3] = 61;
    let message = sent(one.read_tun_packet(&mut overlong, &mut buffer()));
    assert!(matches!(received(&mut other, CLIENT, &message), PacketAction::Discard));
}

#[test]
fn counters_at_the_end_of_their_range_are_discarded() {
    let mut message = [0u8; 32];
    message[0] = 4;
    for byte in 8..16 {
        message[byte] = 0xff;
    }
    assert!(!has_counter_in_range(&message));
    message[9] = 0xfb;
    assert!(has_counter_in_range(&message));
    message[8] = 0;
    message[9] = 0xfc;
    assert!(!has_counter_in_range(&message));
    assert!(has_counter_in_range(&message[..31]));
    let mut runtime = client(0);
    assert!(matches!(received(&mut runtime, SERVER, &message), PacketAction::Discard));
    assert_eq!(get_tunnel_stats(&runtime, NOW).udp_read_packets, 1);
    message[0] = 1;
    assert!(has_counter_in_range(&message));
}

#[test]
fn unexpected_cookies_are_discarded() {
    let mut cookie = [0u8; 64];
    cookie[0] = 3;
    assert!(matches!(received(&mut client(0), SERVER, &cookie), PacketAction::Discard));
}

#[test]
fn worthless_datagrams_are_discarded() {
    let mut runtime = client(0);
    for datagram in [&[1u8, 0, 0, 0][..], &[4; 40], &[1, 2], &[9; 148]] {
        assert!(matches!(received(&mut runtime, SERVER, datagram), PacketAction::Discard));
    }
    assert_eq!(get_tunnel_stats(&runtime, NOW).udp_read_packets, 4);
}

#[test]
fn busy_tunnel_answers_with_a_cookie() {
    let mut one = client(0);
    let mut other = server();
    let initiation = sent(one.force_handshake(&mut buffer()));
    for _ in 0..10 {
        received(&mut other, CLIENT, &initiation);
    }
    let cookie = sent(received(&mut other, CLIENT, &initiation));
    assert_eq!(cookie.len(), 64);
    assert_eq!(wireguard_message_type(&cookie), Some(3));
    assert_eq!(&cookie[4..8], &initiation[4..8]);
    assert!(matches!(received(&mut one, SERVER, &cookie), PacketAction::Idle));

    let initiation = sent(one.force_handshake(&mut buffer()));
    let response = sent(received(&mut other, CLIENT, &initiation));
    assert_eq!(wireguard_message_type(&response), Some(2));
}

#[test]
fn sent_messages_set_timers() {
    let mut runtime = client(3);
    let initiation = runtime.force_handshake(&mut buffer());
    assert_eq!(runtime.complete(&initiation, false, NOW), 0);
    assert_eq!(runtime.next_timer_timeout_ms(NOW), -1);
    assert_eq!(runtime.complete(&initiation, true, NOW), 2);
    assert_eq!(runtime.next_timer_timeout_ms(NOW), 3_000);
    let stats = get_tunnel_stats(&runtime, NOW + 1_500);
    assert_eq!(stats.latest_packet_sent_millis, Some(1_500));
}

#[test]
fn delays_follow_the_kind_of_message() {
    assert_eq!(timer_delay_for_network_write(&[1, 0, 0, 0]), Some(5_000));
    assert_eq!(timer_delay_for_network_write(&[4, 0, 0, 0]), Some(15_000));
    assert_eq!(timer_delay_for_network_write(&[2, 0, 0, 0]), None);
    assert_eq!(timer_delay_for_network_write(&[1, 1, 0, 0]), None);
    assert_eq!(timer_delay_for_network_write(&[1, 0, 0]), None);
    assert_eq!(wireguard_message_type(&[1, 2, 3, 4, 5]), Some(0x0403_0201));
    assert!(holds_data(&[4, 0, 0, 0]));
    assert!(!holds_data(&[1, 0, 0, 0]));
    assert!(!holds_data(&[4]));
}

#[test]
fn outcomes_become_actions() {
    assert!(matches!(handle_tunn_result(TunnOutcome::Done, true), PacketAction::Idle));
    assert!(matches!(handle_tunn_result(TunnOutcome::Rejected, true), PacketAction::Discard));
    let message = TunnOutcome::WriteToNetwork(vec![1]);
    assert!(should_flush_again(&message));
    assert_eq!(sent(handle_tunn_result(message, false)), vec![1]);
    let v4 = TunnOutcome::WriteToTunnelV4(vec![2]);
    assert!(!should_flush_again(&v4));
    assert_eq!(written(handle_tunn_result(v4, true)), vec![2]);
    let v6 = TunnOutcome::WriteToTunnelV6(vec![3]);
    assert_eq!(written(handle_tunn_result(v6, true)), vec![3]);
    let v6 = TunnOutcome::WriteToTunnelV6(vec![3]);
    assert!(matches!(handle_tunn_result(v6, false), PacketAction::Discard));
}

#[test]
fn statistics_are_put_together() {
    let runtime = client(0);
    let tunn = TunnStats {
        latest_handshake: Some((3, 500)),
        tx_bytes: 1,
        rx_bytes: 2,
        loss_bits: 3,
        rtt_millis: Some(4),
    };
    let stats = runtime.collect_stats(tunn, NOW);
    assert_eq!(stats.latest_handshake, Some((3, 500)));
    assert_eq!(stats.tx_bytes, 1);
    assert_eq!(stats.rx_bytes, 2);
    assert_eq!(stats.loss_bits, 3);
    assert_eq!(stats.rtt_millis, Some(4));
}

#[test]
fn timers_are_served_when_they_are_due() {
    let mut runtime = client(2);
    assert!(runtime.service_timer(NOW, &mut buffer()).is_none());
    assert!(runtime.schedule_persistent_keepalive(NOW));
    assert!(runtime.service_timer(NOW + 1_999, &mut buffer()).is_none());
    let action = match runtime.service_timer(NOW + 2_000, &mut buffer()) {
        Some(action) => action,
        None => panic!("no timer was due"),
    };
    assert!(matches!(action, PacketAction::Idle));
    assert_eq!(runtime.complete_timer(&action, false, NOW + 2_000), 1);
    assert_eq!(runtime.next_timer_timeout_ms(NOW + 2_000), 2_000);
}

#[test]
fn keepalive_timer_is_not_set_without_a_keepalive() {
    let mut runtime = client(0);
    assert!(!runtime.schedule_persistent_keepalive(NOW));
    assert_eq!(runtime.complete_timer(&PacketAction::Idle, false, NOW), 0);
    assert_eq!(runtime.next_timer_timeout_ms(NOW), -1);
    assert!(runtime.schedule_timer_after(1, NOW));
    assert_eq!(runtime.next_timer_timeout_ms(NOW), 500);
}

#[test]
fn ticks_are_counted_for_the_tunnel_and_for_all() {
    let mut ticks = TickCounter::new();
    let mut one = client(0);
    let mut other = server();
    one.bump_tick(&mut ticks);
    one.bump_tick(&mut ticks);
    other.bump_tick(&mut ticks);
    one.stop();
    assert_eq!(get_tunnel_tick_count(&one), 2);
    assert_eq!(get_tunnel_tick_count(&other), 1);
    assert_eq!(get_tick_count(&ticks), 3);
}

#[test]
fn tunnel_stays_what_it_was_made_as() {
    let mut one = client(9);
    let mut other = server();
    shake_hands(&mut one, &mut other);
    let action = one.read_tun_packet(&mut packet(1, 40), &mut buffer());
    one.complete(&action, true, NOW);
    one.flush_queued(&mut buffer());
    one.schedule_timer_after(500, NOW);
    one.service_timer(NOW + 500, &mut buffer());
    assert_eq!(get_tunnel_socket_fd(&one), 7);
    assert_eq!(get_persistent_keepalive_seconds(&one), 9);
    assert!(!one.is_running());
    assert!(one.receive_datagram(CLIENT, &[0; 32], &mut buffer()).is_none());
}

#[test]
fn due_timers_run_out() {
    let mut runtime = client(1);
    for delay in [1_000u64, 2_000, 3_000] {
        runtime.schedule_timer_after(delay, NOW);
    }
    let now = NOW + 3_000;
    let mut served = 0;
    while let Some(action) = runtime.service_timer(now, &mut buffer()) {
        runtime.complete_timer(&action, true, now);
        served += 1;
    }
    assert_eq!(served, 3);
    assert_eq!(runtime.next_timer_timeout_ms(now), 1_000);
}

const STEPS: [StartStep; 13] = [
    StartStep::SetTunNonblocking,
    StartStep::DuplicateTun,
    StartStep::SetReadNonblocking,
    StartStep::SetWriteNonblocking,
    StartStep::CloneReadSocket,
    StartStep::CloneWriteSocket,
    StartStep::OpenTunStopPipe,
    StartStep::OpenUdpStopPipe,
    StartStep::SetTimerWake,
    StartStep::SpawnTunWorker,
    StartStep::SpawnUdpWorker,
    StartStep::LockWorkers,
    StartStep::LockStopWriters,
];

#[test]
fn start_takes_every_step_once() {
    let mut runtime = client(0);
    assert_eq!(start_tunnel(&mut runtime, 5), StartDecision::Begin(STEPS[0]));
    assert!(runtime.is_running());
    for index in 0..12 {
        assert_eq!(
            start_step_taken(&mut runtime, STEPS[index], true),
            StartProgress::Next { step: STEPS[index + 1], close_tun: index == 1 }
        );
    }
    assert_eq!(start_step_taken(&mut runtime, STEPS[12], true), StartProgress::Started);
    assert!(runtime.is_running());
    assert_eq!(start_tunnel(&mut runtime, 6), StartDecision::AlreadyRunning);
    runtime.stop();
    assert!(!runtime.is_running());
    assert_eq!(start_tunnel(&mut runtime, 6), StartDecision::Begin(STEPS[0]));
}

#[test]
fn failed_start_is_undone() {
    for index in 0..13 {
        let mut runtime = client(0);
        start_tunnel(&mut runtime, 0);
        assert_eq!(
            start_step_taken(&mut runtime, STEPS[index], false),
            StartProgress::Failed(StartCleanup {
                close_tun: index == 0,
                close_duplicates: index == 1,
                clear_timer_wake: index > 8,
                stop_tun_worker: index > 9,
                stop_udp_worker: index > 10,
            })
        );
        assert!(!runtime.is_running());
    }
}

#[test]
fn stopping_reaches_every_worker() {
    let mut crew = Crew::new();
    assert_eq!(crew.timer_wake(), None);
    crew.set_timer_wake(Some(8));
    crew.enlist("tun pipe", "udp pipe", "tun worker", "udp worker");
    assert_eq!(crew.timer_wake(), Some(8));
    let mut told = Vec::new();
    let mut signalled = 0;
    loop {
        match next_stop_step(&mut crew, signalled) {
            StopStep::Signal(index) => {
                told.push(*crew.stop_writer(index));
                signalled = index + 1;
            }
            StopStep::Join(worker) => told.push(worker),
            StopStep::Done => break,
        }
    }
    assert_eq!(told, vec!["tun pipe", "udp pipe", "udp worker", "tun worker"]);
    assert_eq!(crew.timer_wake(), None);
    assert!(matches!(next_stop_step(&mut crew, 0), StopStep::Done));
}

#[test]
fn messages_are_numbered_and_bytes_are_counted() {
    let mut one = client(0);
    let mut other = server();
    shake_hands(&mut one, &mut other);
    for index in 1u8..4 {
        let message = sent(one.read_tun_packet(&mut packet(index, 40), &mut buffer()));
        assert_eq!(&message[8..16], &[index, 0, 0, 0, 0, 0, 0, 0]);
        received(&mut other, CLIENT, &message);
    }
    assert_eq!(get_tunnel_stats(&one, NOW).tx_bytes, 120);
    assert_eq!(get_tunnel_stats(&one, NOW).rx_bytes, 0);
    assert_eq!(get_tunnel_stats(&other, NOW).rx_bytes, 120);
    assert_eq!(get_tunnel_stats(&other, NOW).tx_bytes, 0);
}

#[test]
fn handshakes_are_numbered() {
    let mut runtime = client(0);
    for number in 1u8..4 {
        let initiation = sent(runtime.force_handshake(&mut buffer()));
        assert_eq!(&initiation[4..8], &[number, 1, 0, 0]);
    }
    let action = runtime.read_tun_packet(&mut packet(1, 40), &mut buffer());
    assert!(matches!(action, PacketAction::Idle));
    let initiation = sent(runtime.force_handshake(&mut buffer()));
    assert_eq!(initiation[4], 4);
}

#[test]
fn run_of_packets_is_counted() {
    let mut runtime = started(0);
    let mut quiet = packet(251, 28);
    quiet[16] = 224;
    for _ in 0..3 {
        tun_read(&mut runtime, &mut quiet.clone(), &mut buffer());
        tun_read(&mut runtime, &mut [], &mut buffer());
        if let TunStage::Acting(action) = tun_read(&mut runtime, &mut packet(1, 40), &mut buffer()) {
            tun_acted(&mut runtime, &action, true, NOW);
        }
    }
    let stats = get_tunnel_stats(&runtime, NOW);
    assert_eq!(stats.tun_read_packets, 6);
    assert_eq!(stats.tun_dropped_packets, 3);
    assert_eq!(stats.udp_read_packets, 0);
    assert_eq!(stats.tun_write_packets, 0);
}

#[test]
fn device_must_be_a_descriptor() {
    let mut runtime = client(0);
    assert_eq!(
        start_tunnel(&mut runtime, -1),
        StartDecision::Refuse(TunnelError::InvalidTunFd)
    );
    assert!(!runtime.is_running());
}

#[test]
fn traffic_begins_with_a_handshake() {
    let mut runtime = client(4);
    let (action, wake) = begin_traffic(&mut runtime, NOW, &mut buffer());
    assert!(wake);
    assert_eq!(runtime.next_timer_timeout_ms(NOW), 4_000);
    assert_eq!(wireguard_message_type(&sent(action)), Some(1));
    let (action, wake) = begin_traffic(&mut runtime, NOW, &mut buffer());
    assert!(!wake);
    assert!(matches!(action, PacketAction::Idle));
}

fn started(keepalive: u32) -> TunnelRuntime {
    let mut runtime = client(keepalive);
    runtime.mark_running();
    runtime
}

#[test]
fn tun_worker_goes_round() {
    let mut ticks = TickCounter::new();
    let mut runtime = started(0);
    let got = |outcome| PollEvent::Got(outcome);
    assert!(matches!(begin_tun_round(&runtime), TunStage::Polling));
    assert!(matches!(
        tun_polled(&mut runtime, &mut ticks, got(PollOutcome::TimedOut)),
        TunStage::Polling
    ));
    assert!(matches!(
        tun_polled(&mut runtime, &mut ticks, PollEvent::Failed { retry: true }),
        TunStage::Polling
    ));
    assert_eq!(get_tick_count(&ticks), 0);
    assert!(matches!(
        tun_polled(&mut runtime, &mut ticks, got(PollOutcome::Ready)),
        TunStage::Reading
    ));
    assert_eq!(get_tick_count(&ticks), 1);
    assert!(matches!(tun_read(&mut runtime, &mut [], &mut buffer()), TunStage::Polling));
    let action = match tun_read(&mut runtime, &mut packet(1, 40), &mut buffer()) {
        TunStage::Acting(action) => action,
        _ => panic!("nothing is to be done"),
    };
    let (stage, wakes) = tun_acted(&mut runtime, &action, true, NOW);
    assert!(matches!(stage, TunStage::Polling));
    assert_eq!(wakes, 1);
    assert_eq!(runtime.next_timer_timeout_ms(NOW), 5_000);
}

#[test]
fn tun_worker_ends() {
    let mut ticks = TickCounter::new();
    let mut runtime = started(0);
    let stopped = PollEvent::Got(PollOutcome::Stopped);
    assert!(matches!(tun_polled(&mut runtime, &mut ticks, stopped), TunStage::Exited));
    let failed = PollEvent::Failed { retry: false };
    assert!(matches!(tun_polled(&mut runtime, &mut ticks, failed), TunStage::Exited));
    assert!(matches!(tun_failed(&runtime, false), TunStage::Exited));
    assert!(matches!(tun_failed(&runtime, true), TunStage::Polling));
    runtime.stop();
    assert!(matches!(tun_failed(&runtime, true), TunStage::Exited));
    assert!(matches!(begin_tun_round(&runtime), TunStage::Exited));
}

#[test]
fn udp_worker_waits_and_ends() {
    let mut ticks = TickCounter::new();
    let mut runtime = started(0);
    let mut out = buffer();
    let stopped = PollEvent::Got(PollOutcome::Stopped);
    let ready = PollEvent::Got(PollOutcome::Ready);
    let timed_out = PollEvent::Got(PollOutcome::TimedOut);
    let failed = PollEvent::Failed { retry: false };
    assert!(matches!(
        udp_polled(&mut runtime, &mut ticks, stopped, NOW, &mut out),
        UdpStage::Polling
    ));
    assert_eq!(get_tick_count(&ticks), 0);
    assert!(matches!(
        udp_polled(&mut runtime, &mut ticks, ready, NOW, &mut out),
        UdpStage::Receiving
    ));
    assert!(matches!(
        udp_polled(&mut runtime, &mut ticks, timed_out, NOW, &mut out),
        UdpStage::Polling
    ));
    assert_eq!(get_tick_count(&ticks), 2);
    assert!(matches!(
        udp_polled(&mut runtime, &mut ticks, failed, NOW, &mut out),
        UdpStage::Exited
    ));
    assert!(matches!(udp_failed(&runtime, true), UdpStage::Polling));
    runtime.stop();
    assert!(matches!(
        udp_polled(&mut runtime, &mut ticks, stopped, NOW, &mut out),
        UdpStage::Exited
    ));
    assert!(matches!(begin_udp_round(&runtime), UdpStage::Exited));
}

#[test]
fn udp_worker_flushes_what_waited_and_serves_timers() {
    let mut out = buffer();
    let mut one = started(1);
    let mut other = server();
    let initiation = sent(one.read_tun_packet(&mut packet(1, 40), &mut buffer()));
    let response = sent(received(&mut other, CLIENT, &initiation));

    let stage = udp_received(&mut one, SERVER, &response, &mut out);
    assert!(matches!(
        &stage,
        UdpStage::Acting { action: PacketAction::SendToPeer(data), data_came: false }
            if data.len() == 32
    ));
    let (stage, wakes) = udp_acted(&mut one, stage, true, NOW, &mut out);
    assert_eq!(wakes, 2);
    assert!(matches!(
        &stage,
        UdpStage::Flushing { action: PacketAction::SendToPeer(data), again: true, .. }
            if data.len() == 72
    ));
    let (stage, wakes) = udp_acted(&mut one, stage, false, NOW, &mut out);
    assert_eq!(wakes, 0);
    assert!(matches!(
        &stage,
        UdpStage::Flushing { action: PacketAction::Idle, again: false, .. }
    ));
    let (stage, wakes) = udp_acted(&mut one, stage, false, NOW + 1_000, &mut out);
    assert_eq!(wakes, 0);
    assert!(matches!(&stage, UdpStage::Timing(_)));
    let (stage, _) = udp_acted(&mut one, stage, false, NOW + 1_000, &mut out);
    assert!(matches!(stage, UdpStage::Polling));
}

#[test]
fn data_from_the_peer_sets_the_keepalive_timer() {
    let mut out = buffer();
    let mut one = client(0);
    let mut other = server();
    shake_hands(&mut one, &mut other);
    one.mark_running();
    let message = sent(other.read_tun_packet(&mut packet(3, 60), &mut buffer()));
    let stage = udp_received(&mut one, SERVER, &message, &mut out);
    assert!(matches!(
        &stage,
        UdpStage::Acting { action: PacketAction::WriteToTun(_), data_came: true }
    ));
    let (stage, _) = udp_acted(&mut one, stage, true, NOW, &mut out);
    let (stage, wakes) = udp_acted(&mut one, stage, false, NOW, &mut out);
    assert_eq!(wakes, 1);
    assert!(matches!(stage, UdpStage::Polling));
    assert_eq!(one.next_timer_timeout_ms(NOW), 10_000);
    assert_eq!(get_tunnel_stats(&one, NOW).tun_write_packets, 1);
}

#[test]
fn udp_worker_does_not_serve_timers_for_strangers() {
    let mut runtime = started(0);
    runtime.schedule_timer_after(500, NOW);
    let stranger = PeerAddress::V6 { address: 1, port: 51820, flowinfo: 0, scope_id: 0 };
    let stage = udp_received(&mut runtime, stranger, &[1, 0, 0, 0], &mut buffer());
    assert!(matches!(stage, UdpStage::Polling));
    assert_eq!(runtime.next_timer_timeout_ms(NOW + 500), 0);
}
