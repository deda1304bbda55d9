use kitsune_core::error::KitsuneError;
use kitsune_core::timeout::KitsuneTimeout;
use kitsune_core::tx::{Endpoint, TxUrl};

fn url(s: &str) -> TxUrl {
    TxUrl(s.to_string())
}

fn patient() -> KitsuneTimeout {
    KitsuneTimeout::from_millis(60_000).unwrap()
}

fn already_expired() -> KitsuneTimeout {
    // A deadline at the epoch: expired against any sane wall clock.
    KitsuneTimeout::at(0, 0).unwrap()
}

#[test]
fn bind_and_local_addr() {
    let ep = Endpoint::bind(url("kitsune-mem://a"), patient()).unwrap();
    assert_eq!(ep.local_addr().unwrap(), url("kitsune-mem://a"));
}

#[test]
fn bind_respects_deadline() {
    assert_eq!(
        Endpoint::bind(url("kitsune-mem://a"), already_expired()).unwrap_err(),
        KitsuneError::TimedOut
    );
}

#[test]
fn connect_and_remote_addr() {
    let mut ep = Endpoint::bind(url("kitsune-mem://a"), patient()).unwrap();
    let con = ep.connect(url("kitsune-mem://b"), patient()).unwrap();
    assert_eq!(ep.remote_addr(con).unwrap(), url("kitsune-mem://b"));
}

#[test]
fn channel_write_then_read_keeps_byte_order() {
    let mut ep = Endpoint::bind(url("kitsune-mem://a"), patient()).unwrap();
    let con = ep.connect(url("kitsune-mem://b"), patient()).unwrap();
    let chan = ep.out_chan(con, patient()).unwrap();
    ep.chan_write(con, chan, &vec![1, 2, 3]).unwrap();
    ep.chan_write(con, chan, &vec![4]).unwrap();
    assert_eq!(ep.chan_read(con, chan).unwrap(), vec![1, 2, 3, 4]);
    // Reading drains: a second read finds nothing, but still succeeds.
    assert_eq!(ep.chan_read(con, chan).unwrap(), Vec::<u8>::new());
}

#[test]
fn closed_endpoint_fails_instead_of_hanging() {
    let mut ep = Endpoint::bind(url("kitsune-mem://a"), patient()).unwrap();
    let con = ep.connect(url("kitsune-mem://b"), patient()).unwrap();
    let chan = ep.out_chan(con, patient()).unwrap();
    ep.close();
    assert_eq!(ep.local_addr().unwrap_err(), KitsuneError::Closed);
    assert_eq!(ep.connect(url("kitsune-mem://c"), patient()).unwrap_err(), KitsuneError::Closed);
    assert_eq!(ep.accept_next(patient()).unwrap_err(), KitsuneError::Closed);
    assert_eq!(
        ep.push_incoming_connection(url("kitsune-mem://d")).unwrap_err(),
        KitsuneError::Closed
    );
    // The cascade closed the connection and channel too.
    assert_eq!(ep.out_chan(con, patient()).unwrap_err(), KitsuneError::Closed);
    assert_eq!(ep.chan_write(con, chan, &vec![1]).unwrap_err(), KitsuneError::Closed);
    assert_eq!(ep.chan_read(con, chan).unwrap_err(), KitsuneError::Closed);
}

#[test]
fn endpoint_close_is_idempotent() {
    let mut ep = Endpoint::bind(url("kitsune-mem://a"), patient()).unwrap();
    ep.close();
    ep.close();
    assert_eq!(ep.local_addr().unwrap_err(), KitsuneError::Closed);
}

#[test]
fn closed_connection_terminates_channel_io() {
    let mut ep = Endpoint::bind(url("kitsune-mem://a"), patient()).unwrap();
    let con = ep.connect(url("kitsune-mem://b"), patient()).unwrap();
    let other = ep.connect(url("kitsune-mem://c"), patient()).unwrap();
    let chan = ep.out_chan(con, patient()).unwrap();
    ep.chan_write(con, chan, &vec![1, 2]).unwrap();
    ep.close_con(con);
    // Outstanding channel reads and writes error out rather than hang.
    assert_eq!(ep.chan_write(con, chan, &vec![3]).unwrap_err(), KitsuneError::Closed);
    assert_eq!(ep.chan_read(con, chan).unwrap_err(), KitsuneError::Closed);
    assert_eq!(ep.out_chan(con, patient()).unwrap_err(), KitsuneError::Closed);
    // The sibling connection is untouched.
    let chan2 = ep.out_chan(other, patient()).unwrap();
    ep.chan_write(other, chan2, &vec![9]).unwrap();
    assert_eq!(ep.chan_read(other, chan2).unwrap(), vec![9]);
}

#[test]
fn closed_channel_rejects_io_but_spares_siblings() {
    let mut ep = Endpoint::bind(url("kitsune-mem://a"), patient()).unwrap();
    let con = ep.connect(url("kitsune-mem://b"), patient()).unwrap();
    let chan_a = ep.out_chan(con, patient()).unwrap();
    let chan_b = ep.out_chan(con, patient()).unwrap();
    ep.close_chan(con, chan_a);
    assert_eq!(ep.chan_write(con, chan_a, &vec![1]).unwrap_err(), KitsuneError::Closed);
    ep.chan_write(con, chan_b, &vec![2]).unwrap();
    assert_eq!(ep.chan_read(con, chan_b).unwrap(), vec![2]);
}

#[test]
fn two_phase_connection_accept_in_arrival_order() {
    let mut ep = Endpoint::bind(url("kitsune-mem://a"), patient()).unwrap();
    // Nothing pending yet: the source reports "not ready", not "done".
    assert_eq!(ep.accept_next(patient()).unwrap().is_none(), true);
    ep.push_incoming_connection(url("kitsune-mem://p1")).unwrap();
    ep.push_incoming_connection(url("kitsune-mem://p2")).unwrap();
    // First phase: the attempt is accepted, its handshake begun.
    let hs = ep.accept_next(patient()).unwrap().unwrap();
    assert_eq!(hs.remote, url("kitsune-mem://p1"));
    // Second phase: the connection becomes ready to use.
    let con = ep.complete_handshake(hs, patient()).unwrap();
    assert_eq!(ep.remote_addr(con).unwrap(), url("kitsune-mem://p1"));
    let hs2 = ep.accept_next(patient()).unwrap().unwrap();
    assert_eq!(hs2.remote, url("kitsune-mem://p2"));
    assert!(ep.accept_next(patient()).unwrap().is_none());
}

#[test]
fn two_phase_channel_accept() {
    let mut ep = Endpoint::bind(url("kitsune-mem://a"), patient()).unwrap();
    let con = ep.connect(url("kitsune-mem://b"), patient()).unwrap();
    assert!(ep.accept_next_channel(con, patient()).unwrap().is_none());
    ep.push_incoming_channel(con).unwrap();
    let hs = ep.accept_next_channel(con, patient()).unwrap().unwrap();
    assert_eq!(hs.con, con);
    let chan = ep.complete_chan_handshake(hs, patient()).unwrap();
    ep.chan_write(con, chan, &vec![7]).unwrap();
    assert_eq!(ep.chan_read(con, chan).unwrap(), vec![7]);
    assert!(ep.accept_next_channel(con, patient()).unwrap().is_none());
}

#[test]
fn operations_respect_deadlines() {
    let mut ep = Endpoint::bind(url("kitsune-mem://a"), patient()).unwrap();
    assert_eq!(
        ep.connect(url("kitsune-mem://b"), already_expired()).unwrap_err(),
        KitsuneError::TimedOut
    );
    let con = ep.connect(url("kitsune-mem://b"), patient()).unwrap();
    assert_eq!(ep.out_chan(con, already_expired()).unwrap_err(), KitsuneError::TimedOut);
    assert_eq!(ep.accept_next(already_expired()).unwrap_err(), KitsuneError::TimedOut);
}
