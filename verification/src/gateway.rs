//! The configured gateways and what their monitors report.

use vstd::prelude::*;

use crate::ssh_exec::dpinger::{Statistics, StatisticsView};
use crate::text::str_eq;

verus! {

/// What a gateway's monitor reports.
#[derive(Clone, Copy, Debug, PartialEq, Eq, Structural)]
pub struct Gateway {
    /// Microseconds.
    pub latency_average: u64,
    /// Microseconds.
    pub latency_stddev: u64,
    /// Percent.
    pub ping_packet_loss: u64,
}

/// The gateways in the order of the configuration, each with the last
/// report of its monitor, or `None` where the monitor does not run.
#[derive(Debug)]
pub struct Gateways {
    names: Vec<String>,
    reports: Vec<Option<Gateway>>,
}

/// What a `Gateways` holds: names and reports, one report for each name.
pub struct GatewaysView {
    pub names: Seq<Seq<char>>,
    pub reports: Seq<Option<Gateway>>,
}

/// The report for the gateway `name` among what the monitors printed: that
/// of the first line with this name.
pub open spec fn report_for(statistics: Seq<StatisticsView>, name: Seq<char>) -> Option<Gateway>
    decreases statistics.len(),
{
    if statistics.len() == 0 {
        None
    } else if statistics[0].name == name {
        Some(
            Gateway {
                latency_average: statistics[0].latency_average,
                latency_stddev: statistics[0].latency_stddev,
                ping_packet_loss: statistics[0].ping_packet_loss,
            },
        )
    } else {
        report_for(statistics.drop_first(), name)
    }
}

/// The views of a list of statistics.
pub open spec fn statistics_views(list: Seq<Statistics>) -> Seq<StatisticsView> {
    Seq::new(list.len(), |i: int| list[i]@)
}

/// The views of a list of names.
pub open spec fn name_views(list: Seq<String>) -> Seq<Seq<char>> {
    Seq::new(list.len(), |i: int| list[i]@)
}

impl View for Gateways {
    type V = GatewaysView;

    closed spec fn view(&self) -> GatewaysView {
        GatewaysView { names: name_views(self.names@), reports: self.reports@ }
    }
}

/// The report for `name` among `statistics`.
fn find_report(statistics: &Vec<Statistics>, name: &str) -> (r: Option<Gateway>)
    ensures
        r == report_for(statistics_views(statistics@), name@),
{
    let ghost all = statistics_views(statistics@);
    let mut i: usize = 0;
    assert(all.skip(0) =~= all);
    while i < statistics.len()
        invariant
            i <= statistics@.len(),
            all == statistics_views(statistics@),
            report_for(all, name@) == report_for(all.skip(i as int), name@),
        decreases statistics@.len() - i,
    {
        assert(all.skip(i as int)[0] == statistics@[i as int]@);
        assert(all.skip(i as int).drop_first() =~= all.skip(i + 1));
        if str_eq(statistics[i].name.as_str(), name) {
            return Some(
                Gateway {
                    latency_average: statistics[i].latency_average,
                    latency_stddev: statistics[i].latency_stddev,
                    ping_packet_loss: statistics[i].ping_packet_loss,
                },
            );
        }
        i = i + 1;
    }
    None
}

impl Gateways {
    /// Whether there is one report for each name.
    pub closed spec fn wf(&self) -> bool {
        self.names@.len() == self.reports@.len()
    }

    /// The gateways of the given names, none of them reported on yet.
    pub fn new(names: Vec<String>) -> (gateways: Self)
        ensures
            gateways.wf(),
            gateways@.names == name_views(names@),
            gateways@.reports.len() == names@.len(),
            forall|i: int| 0 <= i < names@.len() ==> gateways@.reports[i] is None,
    {
        let mut reports: Vec<Option<Gateway>> = Vec::new();
        while reports.len() < names.len()
            invariant
                reports@.len() <= names@.len(),
                forall|i: int| 0 <= i < reports@.len() ==> reports@[i] is None,
            decreases names@.len() - reports@.len(),
        {
            reports.push(None);
        }
        Gateways { names, reports }
    }

    /// Takes in what the monitors printed: every gateway gets the report
    /// of its name, or none where no line has its name.
    pub fn update(&mut self, statistics: &Vec<Statistics>)
        requires
            old(self).wf(),
        ensures
            final(self).wf(),
            final(self)@.names == old(self)@.names,
            final(self)@.reports.len() == old(self)@.reports.len(),
            forall|i: int|
                0 <= i < final(self)@.reports.len() ==> final(self)@.reports[i] == report_for(
                    statistics_views(statistics@),
                    old(self)@.names[i],
                ),
    {
        let mut i: usize = 0;
        while i < self.names.len()
            invariant
                i <= self.names@.len(),
                self.names == old(self).names,
                self.reports@.len() == self.names@.len(),
                forall|k: int|
                    0 <= k < i ==> self.reports@[k] == report_for(
                        statistics_views(statistics@),
                        self.names@[k]@,
                    ),
            decreases self.names@.len() - i,
        {
            let report = find_report(statistics, self.names[i].as_str());
            self.reports.set(i, report);
            i = i + 1;
        }
    }

    /// Number of gateways.
    pub fn len(&self) -> (n: usize)
        requires
            self.wf(),
        ensures
            n == self@.names.len(),
            n == self@.reports.len(),
    {
        self.names.len()
    }

    /// Name and report of gateway `i`.
    pub fn get(&self, i: usize) -> (r: Option<(&str, Option<Gateway>)>)
        requires
            self.wf(),
        ensures
            match r {
                Some((name, report)) => {
                    &&& i < self@.names.len()
                    &&& name@ == self@.names[i as int]
                    &&& report == self@.reports[i as int]
                },
                None => i >= self@.names.len(),
            },
    {
        if i < self.names.len() {
            Some((self.names[i].as_str(), self.reports[i]))
        } else {
            None
        }
    }
}

} // verus!
