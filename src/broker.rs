//! The settings that the broker's producer and consumer clients are made with.
use vstd::prelude::*;
use crate::error::pairs_view;

verus! {

/// The consumer group that this deployment reads as.
pub const GROUP_ID: &'static str = "access-metretes";

fn setting(key: &str, value: &str) -> (r: (String, String))
    ensures
        r.0@ == key@,
        r.1@ == value@,
{
    (key.to_owned(), value.to_owned())
}

/// The producer's settings: the bootstrap address, a five-second delivery
/// timeout, and topics created on first use.
pub fn producer_settings(bootstrap: &str) -> (r: Vec<(String, String)>)
    ensures
        pairs_view(r@) == seq![
            ("bootstrap.servers"@, bootstrap@),
            ("message.timeout.ms"@, "5000"@),
            ("allow.auto.create.topics"@, "true"@),
        ],
{
    let mut v: Vec<(String, String)> = Vec::new();
    v.push(setting("bootstrap.servers", bootstrap));
    v.push(setting("message.timeout.ms", "5000"));
    v.push(setting("allow.auto.create.topics", "true"));
    assert(pairs_view(v@) =~= seq![
        ("bootstrap.servers"@, bootstrap@),
        ("message.timeout.ms"@, "5000"@),
        ("allow.auto.create.topics"@, "true"@),
    ]);
    v
}

/// The consumer's settings: the fixed group, the bootstrap address, no
/// end-of-partition events, a six-second session timeout, and automatic
/// commits at an interval as a backstop to the offsets stored per message.
pub fn consumer_settings(bootstrap: &str) -> (r: Vec<(String, String)>)
    ensures
        pairs_view(r@) == seq![
            ("group.id"@, GROUP_ID@),
            ("bootstrap.servers"@, bootstrap@),
            ("enable.partition.eof"@, "false"@),
            ("session.timeout.ms"@, "6000"@),
            ("enable.auto.commit"@, "true"@),
        ],
{
    let mut v: Vec<(String, String)> = Vec::new();
    v.push(setting("group.id", GROUP_ID));
    v.push(setting("bootstrap.servers", bootstrap));
    v.push(setting("enable.partition.eof", "false"));
    v.push(setting("session.timeout.ms", "6000"));
    v.push(setting("enable.auto.commit", "true"));
    assert(pairs_view(v@) =~= seq![
        ("group.id"@, GROUP_ID@),
        ("bootstrap.servers"@, bootstrap@),
        ("enable.partition.eof"@, "false"@),
        ("session.timeout.ms"@, "6000"@),
        ("enable.auto.commit"@, "true"@),
    ]);
    v
}

} // verus!
