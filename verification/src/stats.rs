//! Counters of what the daemon saw and did.

use vstd::prelude::*;
use crate::logger::Pairs;
use crate::text;

verus! {

/// The counters. Each wraps around to zero after the largest number.
#[derive(Debug, Clone, Copy, PartialEq, Eq, Structural)]
pub struct Stats {
    /// Kernel events received.
    pub events_received: u64,
    /// Kernel events about the battery.
    pub events_relevant: u64,
    /// Other kernel events.
    pub events_irrelevant: u64,
    /// Kernel events passed over because they came right behind a relevant one.
    pub events_drained: u64,
    /// Ticks.
    pub ticks: u64,
    /// Failures of any kind.
    pub errors: u64,
    /// Times the thermal delimiter was switched.
    pub thermal_toggles: u64,
    /// Times charging was cut off.
    pub cut_events: u64,
    /// Times charging was resumed.
    pub resume_events: u64,
}

impl Stats {
    /// Whether every counter is zero.
    pub open spec fn is_zero(self) -> bool {
        self == (Stats {
            events_received: 0,
            events_relevant: 0,
            events_irrelevant: 0,
            events_drained: 0,
            ticks: 0,
            errors: 0,
            thermal_toggles: 0,
            cut_events: 0,
            resume_events: 0,
        })
    }

    /// All counters at zero.
    pub fn new() -> (s: Stats)
        ensures
            s.is_zero(),
            s.events_received == 0,
            s.events_relevant == 0,
            s.events_irrelevant == 0,
            s.events_drained == 0,
            s.ticks == 0,
            s.errors == 0,
            s.thermal_toggles == 0,
            s.cut_events == 0,
            s.resume_events == 0,
    {
        Stats {
            events_received: 0,
            events_relevant: 0,
            events_irrelevant: 0,
            events_drained: 0,
            ticks: 0,
            errors: 0,
            thermal_toggles: 0,
            cut_events: 0,
            resume_events: 0,
        }
    }

    /// The counters as pairs for the log.
    pub open spec fn pairs(self) -> Pairs {
        seq![
            ("ticks"@, text::decimal(self.ticks as nat)),
            ("events_recv"@, text::decimal(self.events_received as nat)),
            ("relevant"@, text::decimal(self.events_relevant as nat)),
            ("irrelevant"@, text::decimal(self.events_irrelevant as nat)),
            ("drained"@, text::decimal(self.events_drained as nat)),
            ("thermal_toggles"@, text::decimal(self.thermal_toggles as nat)),
            ("cut"@, text::decimal(self.cut_events as nat)),
            ("resume"@, text::decimal(self.resume_events as nat)),
            ("errors"@, text::decimal(self.errors as nat)),
        ]
    }

    /// The counters as pairs for the log.
    pub fn kv_snapshot(&self) -> (kv: Vec<(&'static str, String)>)
        ensures
            Seq::new(kv@.len(), |i: int| (kv@[i].0@, kv@[i].1@)) == self.pairs(),
            kv@.len() == 9,
            kv@[0].0@ == "ticks"@ && kv@[0].1@ == text::decimal(self.ticks as nat),
            kv@[1].0@ == "events_recv"@ && kv@[1].1@ == text::decimal(self.events_received as nat),
            kv@[2].0@ == "relevant"@ && kv@[2].1@ == text::decimal(self.events_relevant as nat),
            kv@[3].0@ == "irrelevant"@ && kv@[3].1@ == text::decimal(self.events_irrelevant as nat),
            kv@[4].0@ == "drained"@ && kv@[4].1@ == text::decimal(self.events_drained as nat),
            kv@[5].0@ == "thermal_toggles"@ && kv@[5].1@ == text::decimal(
                self.thermal_toggles as nat,
            ),
            kv@[6].0@ == "cut"@ && kv@[6].1@ == text::decimal(self.cut_events as nat),
            kv@[7].0@ == "resume"@ && kv@[7].1@ == text::decimal(self.resume_events as nat),
            kv@[8].0@ == "errors"@ && kv@[8].1@ == text::decimal(self.errors as nat),
    {
        let kv: Vec<(&'static str, String)> = vec![
            ("ticks", text::decimal_text(self.ticks)),
            ("events_recv", text::decimal_text(self.events_received)),
            ("relevant", text::decimal_text(self.events_relevant)),
            ("irrelevant", text::decimal_text(self.events_irrelevant)),
            ("drained", text::decimal_text(self.events_drained)),
            ("thermal_toggles", text::decimal_text(self.thermal_toggles)),
            ("cut", text::decimal_text(self.cut_events)),
            ("resume", text::decimal_text(self.resume_events)),
            ("errors", text::decimal_text(self.errors)),
        ];
        assert(Seq::new(kv@.len(), |i: int| (kv@[i].0@, kv@[i].1@)) =~= self.pairs());
        kv
    }
}

/// Counters are all at zero exactly if each of the nine is.
pub proof fn zero_means_every_counter(s: Stats)
    ensures
        s.is_zero() <==> s.events_received == 0 && s.events_relevant == 0 && s.events_irrelevant
            == 0 && s.events_drained == 0 && s.ticks == 0 && s.errors == 0 && s.thermal_toggles == 0
            && s.cut_events == 0 && s.resume_events == 0,
{
}

} // verus!
