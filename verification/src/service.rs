//! The services whose processes are watched.

use vstd::prelude::*;
use vstd::string::StringExecFns;

use crate::config::{CustomService, MonitorView, ServiceMonitor, Services};
use crate::ssh_exec::pgrep;
use crate::text::{lemma_lex_le_refl, lemma_lex_le_total, lemma_lex_le_trans, lex_le, str_eq, str_le};

verus! {

/// One watched service.
#[derive(Debug)]
pub struct Service {
    pub name: String,
    is_running_exec: pgrep::Exec,
    pub is_running: bool,
}

/// A `Service` as plain values.
pub struct ServiceView {
    pub name: Seq<char>,
    /// The command line that tells whether the service runs.
    pub command: Seq<char>,
    pub is_running: bool,
}

/// Why the list of services could not be made.
#[derive(Debug)]
pub enum ServiceError {
    /// The configuration names a built-in service that does not exist.
    UnknownBuiltin(String),
}

impl View for Service {
    type V = ServiceView;

    closed spec fn view(&self) -> ServiceView {
        ServiceView {
            name: self.name@,
            command: self.is_running_exec@,
            is_running: self.is_running,
        }
    }
}

/// How a built-in service is watched: by its pid file or by the start of
/// its command line. `None` for a name that is not built in.
pub open spec fn builtin_monitor(name: Seq<char>) -> Option<MonitorView> {
    if name == "configd"@ {
        Some(MonitorView::PidFile("/var/run/configd.pid"@))
    } else if name == "dhcpd"@ {
        Some(MonitorView::CmdLine("/usr/local/sbin/dhcpd -user dhcpd "@))
    } else if name == "dhcpd6"@ {
        Some(MonitorView::CmdLine("/usr/local/sbin/dhcpd -6 -user dhcpd "@))
    } else if name == "ntpd"@ {
        Some(MonitorView::CmdLine("/usr/local/sbin/ntpd "@))
    } else if name == "openssh"@ {
        Some(MonitorView::PidFile("/var/run/sshd.pid"@))
    } else if name == "radvd"@ {
        Some(MonitorView::PidFile("/var/run/radvd.pid"@))
    } else if name == "syslog-ng"@ {
        Some(MonitorView::PidFile("/var/run/syslog-ng.pid"@))
    } else if name == "syslogd"@ {
        Some(MonitorView::PidFile("/var/run/syslog.pid"@))
    } else if name == "unbound"@ {
        Some(MonitorView::PidFile("/var/run/unbound.pid"@))
    } else {
        None
    }
}

/// A service that was not looked for yet.
pub open spec fn fresh_service(name: Seq<char>, monitor: MonitorView) -> ServiceView {
    ServiceView { name, command: pgrep::command_line(monitor), is_running: false }
}

/// The services for a list of built-in names, in order; `None` where a
/// name is not built in.
pub open spec fn builtin_services(names: Seq<String>) -> Option<Seq<ServiceView>>
    decreases names.len(),
{
    if names.len() == 0 {
        Some(Seq::empty())
    } else {
        match (builtin_services(names.drop_last()), builtin_monitor(names.last()@)) {
            (Some(front), Some(monitor)) => Some(front.push(fresh_service(names.last()@, monitor))),
            _ => None,
        }
    }
}

/// The first of `names` that is not built in.
pub open spec fn first_unknown(names: Seq<String>) -> Option<Seq<char>>
    decreases names.len(),
{
    if names.len() == 0 {
        None
    } else {
        match first_unknown(names.drop_last()) {
            Some(name) => Some(name),
            None => if builtin_monitor(names.last()@) is None {
                Some(names.last()@)
            } else {
                None
            },
        }
    }
}

/// The services that the configuration describes in full, in order.
pub open spec fn custom_services(custom: Seq<CustomService>) -> Seq<ServiceView> {
    Seq::new(custom.len(), |i: int| fresh_service(custom[i].name@, custom[i].monitor@))
}

/// Where `x` goes in a list that is sorted by name: behind the last
/// service whose name does not come after its own.
pub open spec fn insert_position(sorted: Seq<ServiceView>, x: ServiceView) -> int
    decreases sorted.len(),
{
    if sorted.len() == 0 {
        0
    } else if lex_le(sorted.last().name, x.name) {
        sorted.len() as int
    } else {
        insert_position(sorted.drop_last(), x)
    }
}

/// The services sorted by name; services of the same name keep their
/// order.
pub open spec fn sorted_by_name(services: Seq<ServiceView>) -> Seq<ServiceView>
    decreases services.len(),
{
    if services.len() == 0 {
        Seq::empty()
    } else {
        let front = sorted_by_name(services.drop_last());
        front.insert(insert_position(front, services.last()), services.last())
    }
}

/// The views of a list of services.
pub open spec fn views(services: Seq<Service>) -> Seq<ServiceView> {
    Seq::new(services.len(), |i: int| services[i]@)
}

/// How a built-in service is watched.
fn monitor_of_builtin(name: &str) -> (r: Option<ServiceMonitor>)
    ensures
        match r {
            Some(monitor) => builtin_monitor(name@) == Some(monitor@),
            None => builtin_monitor(name@) is None,
        },
{
    if str_eq(name, "configd") {
        Some(ServiceMonitor::PidFile(String::from_str("/var/run/configd.pid")))
    } else if str_eq(name, "dhcpd") {
        Some(ServiceMonitor::CmdLine(String::from_str("/usr/local/sbin/dhcpd -user dhcpd ")))
    } else if str_eq(name, "dhcpd6") {
        Some(ServiceMonitor::CmdLine(String::from_str("/usr/local/sbin/dhcpd -6 -user dhcpd ")))
    } else if str_eq(name, "ntpd") {
        Some(ServiceMonitor::CmdLine(String::from_str("/usr/local/sbin/ntpd ")))
    } else if str_eq(name, "openssh") {
        Some(ServiceMonitor::PidFile(String::from_str("/var/run/sshd.pid")))
    } else if str_eq(name, "radvd") {
        Some(ServiceMonitor::PidFile(String::from_str("/var/run/radvd.pid")))
    } else if str_eq(name, "syslog-ng") {
        Some(ServiceMonitor::PidFile(String::from_str("/var/run/syslog-ng.pid")))
    } else if str_eq(name, "syslogd") {
        Some(ServiceMonitor::PidFile(String::from_str("/var/run/syslog.pid")))
    } else if str_eq(name, "unbound") {
        Some(ServiceMonitor::PidFile(String::from_str("/var/run/unbound.pid")))
    } else {
        None
    }
}

/// Puts `service` into a list at the place that its name asks for.
fn insert_sorted(sorted: &mut Vec<Service>, service: Service)
    ensures
        views(final(sorted)@) == views(old(sorted)@).insert(
            insert_position(views(old(sorted)@), service@),
            service@,
        ),
{
    let ghost before = views(sorted@);
    let ghost x = service@;
    let mut p: usize = sorted.len();
    assert(before.take(p as int) =~= before);
    while p > 0 && !str_le(sorted[p - 1].name.as_str(), service.name.as_str())
        invariant
            p <= sorted@.len(),
            before == views(sorted@),
            x == service@,
            insert_position(before, x) == insert_position(before.take(p as int), x),
        decreases p,
    {
        assert(before.take(p as int).last() == sorted@[p - 1]@);
        assert(before.take(p as int).drop_last() =~= before.take(p - 1));
        p = p - 1;
    }
    proof {
        if p > 0 {
            assert(before.take(p as int).last() == sorted@[p - 1]@);
        }
        assert(insert_position(before, x) == p);
    }
    sorted.insert(p, service);
    assert(views(sorted@) =~= before.insert(p as int, x));
}

impl Service {
    /// The services to watch, sorted by name: the built-in ones that the
    /// configuration names and the ones it describes in full. None of them
    /// counts as running before it was looked for.
    ///
    /// Fails on the first name that is not a built-in service.
    pub fn get_all(services: Option<Services>) -> (r: Result<Vec<Service>, ServiceError>)
        ensures
            match services {
                None => r matches Ok(list) && list@.len() == 0,
                Some(wanted) => match r {
                    Ok(list) => builtin_services(wanted.builtin@) matches Some(builtin) && views(
                        list@,
                    ) == sorted_by_name(builtin + custom_services(wanted.custom@)),
                    Err(ServiceError::UnknownBuiltin(name)) => builtin_services(wanted.builtin@)
                        is None && first_unknown(wanted.builtin@) == Some(name@),
                },
            },
    {
        let mut result: Vec<Service> = Vec::new();
        let Services { builtin, custom } = match services {
            Some(wanted) => wanted,
            None => {
                return Ok(result);
            },
        };
        let ghost builtin_names = builtin@;
        let ghost custom_list = custom@;
        let ghost mut done: Seq<ServiceView> = Seq::empty();
        let mut i: usize = 0;
        while i < builtin.len()
            invariant
                i <= builtin@.len(),
                builtin@ == builtin_names,
                services matches Some(wanted) && wanted.builtin@ == builtin_names,
                builtin_services(builtin_names.take(i as int)) == Some(done),
                first_unknown(builtin_names.take(i as int)) is None,
                views(result@) == sorted_by_name(done),
            decreases builtin@.len() - i,
        {
            assert(builtin_names.take(i + 1).drop_last() =~= builtin_names.take(i as int));
            let name: String = builtin[i].clone();
            match monitor_of_builtin(name.as_str()) {
                Some(monitor) => {
                    let service = Service {
                        name,
                        is_running_exec: pgrep::Exec::new(monitor),
                        is_running: false,
                    };
                    proof {
                        done = done.push(service@);
                    }
                    assert(done.drop_last() =~= builtin_services(
                        builtin_names.take(i as int),
                    )->0);
                    insert_sorted(&mut result, service);
                },
                None => {
                    proof {
                        lemma_unknown_extends(builtin_names, i + 1);
                    }
                    return Err(ServiceError::UnknownBuiltin(name));
                },
            }
            i = i + 1;
        }
        assert(builtin_names.take(i as int) =~= builtin_names);
        let ghost builtin_done = done;
        let mut custom = custom;
        let mut rest: Vec<CustomService> = Vec::new();
        // Move the custom services out front first: reverse, then pop.
        while custom.len() > 0
            invariant
                custom@.len() + rest@.len() == custom_list.len(),
                custom@ == custom_list.take(custom@.len() as int),
                forall|k: int|
                    0 <= k < rest@.len() ==> rest@[k] == custom_list[custom_list.len() - 1 - k],
            decreases custom@.len(),
        {
            let ghost m = custom@.len();
            let item = custom.pop().unwrap();
            rest.push(item);
            assert(custom@ =~= custom_list.take(m - 1));
        }
        let mut j: usize = 0;
        let total: usize = rest.len();
        while rest.len() > 0
            invariant
                total == custom_list.len(),
                j + rest@.len() == total,
                forall|k: int|
                    0 <= k < rest@.len() ==> rest@[k] == custom_list[custom_list.len() - 1 - k],
                done == builtin_done + custom_services(custom_list).take(j as int),
                views(result@) == sorted_by_name(done),
            decreases rest@.len(),
        {
            let CustomService { name, monitor } = rest.pop().unwrap();
            let service = Service {
                name,
                is_running_exec: pgrep::Exec::new(monitor),
                is_running: false,
            };
            let ghost before = done;
            proof {
                done = done.push(service@);
                assert(service@ == custom_services(custom_list)[j as int]);
                assert(done =~= builtin_done + custom_services(custom_list).take(j + 1));
                assert(done.drop_last() =~= before);
            }
            insert_sorted(&mut result, service);
            j = j + 1;
        }
        assert(custom_services(custom_list).take(j as int) =~= custom_services(custom_list));
        Ok(result)
    }

    /// The service's name.
    pub fn name(&self) -> (name: &str)
        ensures
            name@ == self@.name,
    {
        self.name.as_str()
    }

    /// Whether the service ran when it was last looked for.
    pub fn is_running(&self) -> (r: bool)
        ensures
            r == self@.is_running,
    {
        self.is_running
    }

    /// The command line that tells whether the service runs.
    pub fn command(&self) -> (c: &str)
        ensures
            c@ == self@.command,
    {
        self.is_running_exec.command()
    }

    /// Takes in the first line that the command printed: the service runs
    /// if anything was printed.
    pub fn update(&mut self, first_line: &str)
        ensures
            final(self)@ == (ServiceView {
                name: old(self)@.name,
                command: old(self)@.command,
                is_running: first_line@.len() > 0,
            }),
    {
        self.is_running = pgrep::Exec::is_running(first_line);
    }
}

/// Once a name is unknown, the list has no services and its first unknown
/// name stays the same however it goes on.
proof fn lemma_unknown_extends(names: Seq<String>, k: int)
    requires
        1 <= k <= names.len(),
        first_unknown(names.take(k - 1)) is None,
        builtin_monitor(names[k - 1]@) is None,
    ensures
        builtin_services(names) is None,
        first_unknown(names) == Some(names[k - 1]@),
{
    assert(names.take(k).drop_last() =~= names.take(k - 1));
    assert(first_unknown(names.take(k)) == Some(names[k - 1]@));
    assert(builtin_services(names.take(k)) is None);
    lemma_unknown_stays(names, k);
}

proof fn lemma_unknown_stays(names: Seq<String>, k: int)
    requires
        0 <= k <= names.len(),
        first_unknown(names.take(k)) is Some,
        builtin_services(names.take(k)) is None,
    ensures
        builtin_services(names) is None,
        first_unknown(names) == first_unknown(names.take(k)),
    decreases names.len() - k,
{
    if k < names.len() {
        assert(names.take(k + 1).drop_last() =~= names.take(k));
        lemma_unknown_stays(names, k + 1);
    } else {
        assert(names.take(k) =~= names);
    }
}

/// Whether the names of a list go up in dictionary order.
pub open spec fn is_sorted(list: Seq<ServiceView>) -> bool {
    forall|i: int, j: int| 0 <= i <= j < list.len() ==> lex_le(list[i].name, list[j].name)
}

/// In a sorted list, the place for `x` has before it the services whose
/// names do not come after that of `x`, and behind it those whose names do.
proof fn lemma_insert_position(sorted: Seq<ServiceView>, x: ServiceView)
    requires
        is_sorted(sorted),
    ensures
        0 <= insert_position(sorted, x) <= sorted.len(),
        forall|i: int|
            0 <= i < insert_position(sorted, x) ==> lex_le((#[trigger] sorted[i]).name, x.name),
        forall|i: int|
            insert_position(sorted, x) <= i < sorted.len() ==> !lex_le(
                (#[trigger] sorted[i]).name,
                x.name,
            ),
    decreases sorted.len(),
{
    if sorted.len() > 0 {
        if lex_le(sorted.last().name, x.name) {
            assert forall|i: int| 0 <= i < sorted.len() implies lex_le(
                (#[trigger] sorted[i]).name,
                x.name,
            ) by {
                lemma_lex_le_trans(sorted[i].name, sorted.last().name, x.name);
            }
        } else {
            let front = sorted.drop_last();
            assert(is_sorted(front)) by {
                assert forall|i: int, j: int| 0 <= i <= j < front.len() implies lex_le(
                    front[i].name,
                    front[j].name,
                ) by {
                    assert(front[i] == sorted[i] && front[j] == sorted[j]);
                }
            }
            lemma_insert_position(front, x);
            assert forall|i: int| insert_position(sorted, x) <= i < sorted.len() implies !lex_le(
                (#[trigger] sorted[i]).name,
                x.name,
            ) by {
                if i < front.len() {
                    assert(sorted[i] == front[i]);
                }
            }
            assert forall|i: int| 0 <= i < insert_position(sorted, x) implies lex_le(
                (#[trigger] sorted[i]).name,
                x.name,
            ) by {
                assert(sorted[i] == front[i]);
            }
        }
    }
}

/// Sorting by name yields the same services, each as often as before, with
/// names that go up in dictionary order.
pub proof fn lemma_sorted_by_name(services: Seq<ServiceView>)
    ensures
        is_sorted(sorted_by_name(services)),
        sorted_by_name(services).len() == services.len(),
        sorted_by_name(services).to_multiset() == services.to_multiset(),
    decreases services.len(),
{
    broadcast use vstd::seq_lib::to_multiset_insert, vstd::seq_lib::to_multiset_build;

    if services.len() == 0 {
        assert(sorted_by_name(services) =~= services);
    } else {
        let x = services.last();
        let front = sorted_by_name(services.drop_last());
        lemma_sorted_by_name(services.drop_last());
        lemma_insert_position(front, x);
        let p = insert_position(front, x);
        let r = front.insert(p, x);
        front.insert_ensures(p, x);
        assert forall|i: int, j: int| 0 <= i <= j < r.len() implies lex_le(
            r[i].name,
            r[j].name,
        ) by {
            if j < p {
                assert(r[i] == front[i] && r[j] == front[j]);
            } else if j == p {
                if i < p {
                    assert(r[i] == front[i]);
                } else {
                    lemma_lex_le_refl(x.name);
                }
            } else {
                assert(r[j] == front[j - 1]);
                if i < p {
                    assert(r[i] == front[i]);
                } else if i == p {
                    lemma_lex_le_total(x.name, front[j - 1].name);
                } else {
                    assert(r[i] == front[i - 1]);
                }
            }
        }
        assert(services =~= services.drop_last().push(x));
    }
}

} // verus!
