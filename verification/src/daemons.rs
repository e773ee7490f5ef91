//! Several Tor daemons side by side, one per CPU core: their ports and data
//! directories, their health, and which mirrors each one serves.

use vstd::prelude::*;
use crate::clock::unix_time_secs;
use crate::text::{owned, concat_str, u64_to_decimal, decimal, str_eq, views, contains_string};

verus! {

/// Settings of the multi-daemon layout. The flex core's settings, which hold
/// CPU thresholds as fractions, are kept by the caller.
#[derive(Debug, Clone, Copy, PartialEq, Eq, Structural)]
pub struct MultiDaemonConfig {
    pub enabled: bool,
    /// How many daemons to run; zero means one per detected core.
    pub daemons_per_vps: usize,
    /// Whether each daemon is pinned to a core.
    pub cpu_affinity: bool,
    /// Daemon `i` gets this SOCKS port plus `i`.
    pub base_socks_port: u16,
    /// Daemon `i` gets this control port plus `i`.
    pub base_control_port: u16,
    pub health_check_interval_seconds: u64,
    /// Failed checks in a row after which a daemon counts as unhealthy.
    pub max_health_failures: u32,
    pub auto_restart_daemons: bool,
}

impl Default for MultiDaemonConfig {
    fn default() -> (c: Self)
        ensures
            c == (MultiDaemonConfig {
                enabled: false,
                daemons_per_vps: 0,
                cpu_affinity: true,
                base_socks_port: 9050,
                base_control_port: 9051,
                health_check_interval_seconds: 30,
                max_health_failures: 3,
                auto_restart_daemons: true,
            }),
    {
        MultiDaemonConfig {
            enabled: false,
            daemons_per_vps: 0,
            cpu_affinity: true,
            base_socks_port: 9050,
            base_control_port: 9051,
            health_check_interval_seconds: 30,
            max_health_failures: 3,
            auto_restart_daemons: true,
        }
    }
}

/// How a daemon is doing.
#[derive(Debug, Clone, Copy, PartialEq, Eq, Structural)]
pub enum DaemonHealth {
    Starting,
    Healthy,
    /// Running, but its control port did not answer.
    Degraded,
    /// Its control port failed too many checks in a row.
    Unhealthy,
    /// Its process is gone.
    Dead,
    Restarting,
}

/// One Tor daemon.
#[derive(Debug)]
pub struct TorDaemon {
    pub id: usize,
    /// The core it is pinned to, if pinning is on.
    pub cpu_core: Option<usize>,
    pub socks_port: u16,
    pub control_port: u16,
    pub pid: Option<u32>,
    pub health: DaemonHealth,
    /// Failed health checks in a row.
    pub health_failures: u32,
    /// The mirrors it serves, in the order they were given to it.
    pub assigned_mirrors: Vec<String>,
    pub data_dir: String,
    pub started_at: u64,
    pub total_requests: u64,
}

/// A daemon as plain values.
pub struct TorDaemonView {
    pub id: usize,
    pub cpu_core: Option<usize>,
    pub socks_port: u16,
    pub control_port: u16,
    pub pid: Option<u32>,
    pub health: DaemonHealth,
    pub health_failures: u32,
    pub assigned_mirrors: Seq<Seq<char>>,
    pub data_dir: Seq<char>,
    pub started_at: u64,
    pub total_requests: u64,
}

impl View for TorDaemon {
    type V = TorDaemonView;

    open spec fn view(&self) -> TorDaemonView {
        TorDaemonView {
            id: self.id,
            cpu_core: self.cpu_core,
            socks_port: self.socks_port,
            control_port: self.control_port,
            pid: self.pid,
            health: self.health,
            health_failures: self.health_failures,
            assigned_mirrors: views(self.assigned_mirrors@),
            data_dir: self.data_dir@,
            started_at: self.started_at,
            total_requests: self.total_requests,
        }
    }
}

/// `name` under the directory `base`, as `Path::join` puts a relative name
/// under a directory.
pub open spec fn joined(base: Seq<char>, name: Seq<char>) -> Seq<char> {
    if base.len() == 0 || base.last() == '/' { base + name } else { base + "/"@ + name }
}

/// Puts the relative name `name` under the directory `base`.
pub fn join_path(base: &str, name: &str) -> (r: String)
    ensures
        r@ == joined(base@, name@),
{
    let n = base.unicode_len();
    if n == 0 || base.get_char(n - 1) == '/' {
        concat_str(base, name)
    } else {
        let mut s = concat_str(base, "/");
        s.append(name);
        s
    }
}

/// The name of daemon `id`'s data directory.
pub open spec fn daemon_dir_name(id: usize) -> Seq<char> {
    "daemon_"@ + decimal(id as nat)
}

/// Whether ports `base + i` (with `i` cut to 16 bits, as `i as u16` does)
/// fit in 16 bits for every daemon `i` below `count`.
pub open spec fn ports_fit(config: MultiDaemonConfig, count: int) -> bool {
    count <= 0 || {
        let top = if count - 1 < 65536 { count - 1 } else { 65535 };
        &&& config.base_socks_port + top <= u16::MAX
        &&& config.base_control_port + top <= u16::MAX
    }
}

/// Daemon `id` as it is set up, before it starts.
pub open spec fn fresh_daemon(id: usize, config: MultiDaemonConfig, tor_data_dir: Seq<char>, detected_cores: usize, now: u64) -> TorDaemonView {
    TorDaemonView {
        id,
        cpu_core: if config.cpu_affinity {
            Some(if detected_cores > 0 { (id % detected_cores) as usize } else { id })
        } else {
            None
        },
        socks_port: (config.base_socks_port + id % 65536) as u16,
        control_port: (config.base_control_port + id % 65536) as u16,
        pid: None,
        health: DaemonHealth::Starting,
        health_failures: 0,
        assigned_mirrors: Seq::empty(),
        data_dir: joined(tor_data_dir, daemon_dir_name(id)),
        started_at: now,
        total_requests: 0,
    }
}

/// A copy of every string, in order.
pub fn copy_strings(v: &Vec<String>) -> (r: Vec<String>)
    ensures
        views(r@) == views(v@),
{
    let mut r: Vec<String> = Vec::new();
    let mut i: usize = 0;
    while i < v.len()
        invariant
            i <= v.len(),
            views(r@) == views(v@).take(i as int),
        decreases v.len() - i,
    {
        let c = v[i].clone();
        let ghost before = r@;
        r.push(c);
        proof {
            assert(c@ == v@[i as int]@);
            assert(r@ == before.push(c));
            assert(views(r@) =~= views(before).push(c@));
            assert(views(r@) =~= views(v@).take(i + 1));
        }
        i = i + 1;
    }
    proof {
        assert(views(v@).take(v.len() as int) =~= views(v@));
    }
    r
}

impl TorDaemon {
    /// Daemon `id`, set up at `now`: pinned to core `id` modulo the detected
    /// cores if pinning is on, with ports offset by its number and a data
    /// directory of its own.
    pub fn new_at(id: usize, config: &MultiDaemonConfig, tor_data_dir: &str, detected_cores: usize, now: u64) -> (d: Self)
        requires
            ports_fit(*config, id + 1),
        ensures
            d@ == fresh_daemon(id, *config, tor_data_dir@, detected_cores, now),
    {
        let core_id = if detected_cores > 0 { id % detected_cores } else { id };
        let offset: u16 = (id % 65536) as u16;
        let name = concat_str("daemon_", u64_to_decimal(id as u64).as_str());
        let d = TorDaemon {
            id,
            cpu_core: if config.cpu_affinity { Some(core_id) } else { None },
            socks_port: config.base_socks_port + offset,
            control_port: config.base_control_port + offset,
            pid: None,
            health: DaemonHealth::Starting,
            health_failures: 0,
            assigned_mirrors: Vec::new(),
            data_dir: join_path(tor_data_dir, name.as_str()),
            started_at: now,
            total_requests: 0,
        };
        proof {
            assert(views(d.assigned_mirrors@) =~= Seq::<Seq<char>>::empty());
        }
        d
    }

    /// Daemon `id`, set up now by the system clock.
    pub fn new(id: usize, config: &MultiDaemonConfig, tor_data_dir: &str, detected_cores: usize) -> (d: Self)
        requires
            ports_fit(*config, id + 1),
        ensures
            d@.id == id,
            d@.cpu_core == fresh_daemon(id, *config, tor_data_dir@, detected_cores, 0).cpu_core,
            d@.socks_port == fresh_daemon(id, *config, tor_data_dir@, detected_cores, 0).socks_port,
            d@.control_port == fresh_daemon(id, *config, tor_data_dir@, detected_cores, 0).control_port,
            d@.pid is None,
            d@.health == DaemonHealth::Starting,
            d@.health_failures == 0,
            d@.assigned_mirrors.len() == 0,
            d@.data_dir == joined(tor_data_dir@, daemon_dir_name(id)),
    {
        TorDaemon::new_at(id, config, tor_data_dir, detected_cores, unix_time_secs())
    }

    /// Whether the daemon is healthy and serves fewer than
    /// `max_per_daemon` mirrors.
    pub fn can_accept_mirrors(&self, max_per_daemon: usize) -> (r: bool)
        ensures
            r == (self.health == DaemonHealth::Healthy && self@.assigned_mirrors.len() < max_per_daemon),
    {
        self.health == DaemonHealth::Healthy && self.assigned_mirrors.len() < max_per_daemon
    }

    /// A copy of the daemon.
    pub fn snapshot(&self) -> (d: TorDaemon)
        ensures
            d@ == self@,
    {
        TorDaemon {
            id: self.id,
            cpu_core: self.cpu_core,
            socks_port: self.socks_port,
            control_port: self.control_port,
            pid: self.pid,
            health: self.health,
            health_failures: self.health_failures,
            assigned_mirrors: copy_strings(&self.assigned_mirrors),
            data_dir: self.data_dir.clone(),
            started_at: self.started_at,
            total_requests: self.total_requests,
        }
    }
}

/// Whether a daemon is healthy.
pub open spec fn is_healthy(d: TorDaemonView) -> bool {
    d.health == DaemonHealth::Healthy
}

/// Whether daemon `i` is where a new mirror goes: the healthy daemon
/// serving the fewest mirrors, the first of them on a tie.
pub open spec fn least_loaded(ds: Seq<TorDaemonView>, i: int) -> bool {
    &&& 0 <= i < ds.len()
    &&& is_healthy(ds[i])
    &&& forall|j: int| 0 <= j < ds.len() && #[trigger] is_healthy(ds[j])
        ==> ds[i].assigned_mirrors.len() <= ds[j].assigned_mirrors.len()
    &&& forall|j: int| 0 <= j < i && #[trigger] is_healthy(ds[j])
        ==> ds[i].assigned_mirrors.len() < ds[j].assigned_mirrors.len()
}

/// Daemon `d` with one more mirror.
pub open spec fn with_mirror(d: TorDaemonView, mirror: Seq<char>) -> TorDaemonView {
    TorDaemonView { assigned_mirrors: d.assigned_mirrors.push(mirror), ..d }
}

/// Daemon `d` without the mirror `mirror`.
pub open spec fn without_mirror(d: TorDaemonView, mirror: Seq<char>) -> TorDaemonView {
    TorDaemonView { assigned_mirrors: d.assigned_mirrors.filter(|m: Seq<char>| m != mirror), ..d }
}

/// Whether daemon `d` serves `mirror`.
pub open spec fn serves(d: TorDaemonView, mirror: Seq<char>) -> bool {
    d.assigned_mirrors.contains(mirror)
}

/// The strings of `v` other than `s`, in order.
pub fn strings_without(v: &Vec<String>, s: &str) -> (r: Vec<String>)
    ensures
        views(r@) == views(v@).filter(|m: Seq<char>| m != s@),
{
    let mut r: Vec<String> = Vec::new();
    let mut i: usize = 0;
    proof {
        reveal_with_fuel(Seq::filter, 1);
        assert(views(v@).take(0) =~= Seq::<Seq<char>>::empty());
    }
    while i < v.len()
        invariant
            i <= v.len(),
            views(r@) == views(v@).take(i as int).filter(|m: Seq<char>| m != s@),
        decreases v.len() - i,
    {
        let ghost before = r@;
        proof {
            reveal_with_fuel(Seq::filter, 1);
            assert(views(v@).take(i + 1).drop_last() =~= views(v@).take(i as int));
            assert(views(v@).take(i + 1).last() == v@[i as int]@);
        }
        if !str_eq(v[i].as_str(), s) {
            let c = v[i].clone();
            r.push(c);
            proof {
                assert(views(r@) =~= views(before).push(c@));
            }
        }
        i = i + 1;
    }
    proof {
        assert(views(v@).take(v.len() as int) =~= views(v@));
    }
    r
}

/// Daemon `d` after it was stopped.
pub open spec fn stopped(d: TorDaemonView) -> TorDaemonView {
    TorDaemonView { pid: None, health: DaemonHealth::Dead, ..d }
}

/// The process numbers of the daemons below `n` that have one, in order.
pub open spec fn stopped_pids(ds: Seq<TorDaemonView>, n: int) -> Seq<u32>
    decreases n,
{
    if n <= 0 {
        Seq::empty()
    } else {
        let before = stopped_pids(ds, n - 1);
        if n - 1 < ds.len() && ds[n - 1].pid is Some { before.push(ds[n - 1].pid->0) } else { before }
    }
}

/// The daemon count of a manager.
pub open spec fn self_count(m: &MultiDaemonManager) -> int {
    if m.config.daemons_per_vps == 0 { m.detected_cores as int } else { m.config.daemons_per_vps as int }
}

/// Daemon `d` after a health check: healthy if its control port answered;
/// else, if its process runs, one more failure, and unhealthy once the
/// failures reach `max_failures` (degraded before); else dead, with no process.
pub open spec fn checked(d: TorDaemonView, port_reachable: bool, process_alive: bool, max_failures: u32) -> TorDaemonView {
    if port_reachable {
        TorDaemonView { health: DaemonHealth::Healthy, health_failures: 0, ..d }
    } else if process_alive {
        let f = (d.health_failures + 1) as u32;
        TorDaemonView { health: if f >= max_failures { DaemonHealth::Unhealthy } else { DaemonHealth::Degraded }, health_failures: f, ..d }
    } else {
        TorDaemonView { health: DaemonHealth::Dead, pid: None, ..d }
    }
}

/// What starting a daemon takes.
#[derive(Debug)]
pub struct DaemonLaunch {
    /// The directory to create.
    pub data_dir: String,
    /// Where the torrc goes.
    pub torrc_path: String,
    /// The torrc's content.
    pub torrc: String,
    /// The program to run.
    pub program: String,
    pub args: Vec<String>,
}

/// The torrc of a daemon.
pub open spec fn torrc_of(id: usize, socks_port: u16, control_port: u16, data_dir: Seq<char>) -> Seq<char> {
    "# Fortify Multi-Daemon Tor Configuration (daemon "@ + decimal(id as nat) + ")\nSocksPort "@
        + decimal(socks_port as nat) + "\nControlPort "@ + decimal(control_port as nat)
        + "\nDataDirectory "@ + data_dir + "\nLog notice file "@ + data_dir + "/notice.log\nCookieAuthentication 1\n"@
}

/// Writes the torrc of a daemon.
pub fn daemon_torrc(id: usize, socks_port: u16, control_port: u16, data_dir: &str) -> (s: String)
    ensures
        s@ == torrc_of(id, socks_port, control_port, data_dir@),
{
    let mut s = concat_str("# Fortify Multi-Daemon Tor Configuration (daemon ", u64_to_decimal(id as u64).as_str());
    s.append(")\nSocksPort ");
    s.append(u64_to_decimal(socks_port as u64).as_str());
    s.append("\nControlPort ");
    s.append(u64_to_decimal(control_port as u64).as_str());
    s.append("\nDataDirectory ");
    s.append(data_dir);
    s.append("\nLog notice file ");
    s.append(data_dir);
    s.append("/notice.log\nCookieAuthentication 1\n");
    s
}

/// Whether `p` is the plan to start daemon `d`.
pub open spec fn launch_of(p: DaemonLaunch, d: TorDaemonView, cpu_affinity: bool) -> bool {
    let torrc_path = joined(d.data_dir, "torrc"@);
    &&& p.data_dir@ == d.data_dir
    &&& p.torrc_path@ == torrc_path
    &&& p.torrc@ == torrc_of(d.id, d.socks_port, d.control_port, d.data_dir)
    &&& if cpu_affinity && d.cpu_core is Some {
        &&& p.program@ == "taskset"@
        &&& views(p.args@) == seq!["-c"@, decimal(d.cpu_core->0 as nat), "tor"@, "-f"@, torrc_path]
    } else {
        &&& p.program@ == "tor"@
        &&& views(p.args@) == seq!["-f"@, torrc_path]
    }
}

/// The daemons of one machine.
pub struct MultiDaemonManager {
    pub config: MultiDaemonConfig,
    /// Daemon `i` sits at position `i` once set up.
    pub daemons: Vec<TorDaemon>,
    pub tor_data_dir: String,
    /// CPU cores found on the machine.
    pub detected_cores: usize,
}

/// Why a daemon could not be acted on.
#[derive(Debug, Clone, Copy, PartialEq, Eq, Structural)]
pub enum DaemonError {
    /// No daemon has this number.
    NotFound(usize),
}

impl DaemonError {
    /// The error's message.
    pub fn message(&self) -> (r: String)
        ensures
            r@ == match *self { DaemonError::NotFound(id) => "Daemon "@ + decimal(id as nat) + " not found"@ },
    {
        match self {
            DaemonError::NotFound(id) => {
                let mut s = concat_str("Daemon ", u64_to_decimal(*id as u64).as_str());
                s.append(" not found");
                s
            },
        }
    }
}

impl MultiDaemonManager {
    /// The daemons as plain values.
    pub open spec fn daemons_view(&self) -> Seq<TorDaemonView> {
        self.daemons@.map_values(|d: TorDaemon| d@)
    }

    /// A manager with no daemon set up, on a machine with `detected_cores` cores.
    pub fn with_cores(config: MultiDaemonConfig, tor_data_dir: String, detected_cores: usize) -> (m: Self)
        ensures
            m.config == config,
            m.tor_data_dir == tor_data_dir,
            m.detected_cores == detected_cores,
            m.daemons_view() == Seq::<TorDaemonView>::empty(),
    {
        let m = MultiDaemonManager { config, daemons: Vec::new(), tor_data_dir, detected_cores };
        proof {
            assert(m.daemons_view() =~= Seq::<TorDaemonView>::empty());
        }
        m
    }

    /// How many daemons to run: the configured number, or one per core.
    pub fn daemon_count(&self) -> (n: usize)
        ensures
            n == if self.config.daemons_per_vps == 0 { self.detected_cores } else { self.config.daemons_per_vps },
    {
        if self.config.daemons_per_vps == 0 {
            self.detected_cores
        } else {
            self.config.daemons_per_vps
        }
    }

    /// Replaces the daemons by freshly set-up ones, numbered from zero, at `now`.
    pub fn initialize_daemons_at(&mut self, now: u64)
        requires
            ports_fit(old(self).config, if old(self).config.daemons_per_vps == 0 { old(self).detected_cores as int } else { old(self).config.daemons_per_vps as int }),
        ensures
            final(self).config == old(self).config,
            final(self).tor_data_dir == old(self).tor_data_dir,
            final(self).detected_cores == old(self).detected_cores,
            final(self).daemons_view().len() == if old(self).config.daemons_per_vps == 0 { old(self).detected_cores } else { old(self).config.daemons_per_vps },
            forall|i: int| 0 <= i < final(self).daemons_view().len() ==> #[trigger] final(self).daemons_view()[i]
                == fresh_daemon(i as usize, old(self).config, old(self).tor_data_dir@, old(self).detected_cores, now),
    {
        let count = self.daemon_count();
        let mut ds: Vec<TorDaemon> = Vec::new();
        let mut i: usize = 0;
        while i < count
            invariant
                i <= count,
                ports_fit(self.config, count as int),
                ds@.len() == i,
                forall|j: int| 0 <= j < i ==> #[trigger] ds@[j]@
                    == fresh_daemon(j as usize, self.config, self.tor_data_dir@, self.detected_cores, now),
            decreases count - i,
        {
            let d = TorDaemon::new_at(i, &self.config, self.tor_data_dir.as_str(), self.detected_cores, now);
            ds.push(d);
            i = i + 1;
        }
        self.daemons = ds;
    }

    /// Replaces the daemons by freshly set-up ones, by the system clock.
    pub fn initialize_daemons(&mut self)
        requires
            ports_fit(old(self).config, if old(self).config.daemons_per_vps == 0 { old(self).detected_cores as int } else { old(self).config.daemons_per_vps as int }),
        ensures
            final(self).config == old(self).config,
            final(self).daemons_view().len() == if old(self).config.daemons_per_vps == 0 { old(self).detected_cores } else { old(self).config.daemons_per_vps },
    {
        self.initialize_daemons_at(unix_time_secs());
    }

    /// Gives the mirror to the healthy daemon serving the fewest mirrors
    /// (the first of them on a tie) and returns that daemon's number; with
    /// no healthy daemon nothing changes and nothing is returned.
    pub fn assign_mirror(&mut self, mirror_id: &str) -> (r: Option<usize>)
        ensures
            final(self).config == old(self).config,
            final(self).detected_cores == old(self).detected_cores,
            final(self).tor_data_dir == old(self).tor_data_dir,
            r is None <==> forall|j: int| 0 <= j < old(self).daemons_view().len() ==> !#[trigger] is_healthy(old(self).daemons_view()[j]),
            r is None ==> final(self).daemons_view() == old(self).daemons_view(),
            r matches Some(id) ==> exists|i: int| #[trigger] least_loaded(old(self).daemons_view(), i)
                && id == old(self).daemons_view()[i].id
                && final(self).daemons_view() == old(self).daemons_view().update(i, with_mirror(old(self).daemons_view()[i], mirror_id@)),
    {
        let ghost ds = self.daemons_view();
        let mut best: Option<usize> = None;
        let mut i: usize = 0;
        while i < self.daemons.len()
            invariant
                i <= self.daemons@.len(),
                ds == self.daemons_view(),
                best is None ==> forall|j: int| 0 <= j < i ==> !#[trigger] is_healthy(ds[j]),
                best matches Some(b) ==> b < i && is_healthy(ds[b as int])
                    && (forall|j: int| 0 <= j < i && #[trigger] is_healthy(ds[j]) ==> ds[b as int].assigned_mirrors.len() <= ds[j].assigned_mirrors.len())
                    && (forall|j: int| 0 <= j < b && #[trigger] is_healthy(ds[j]) ==> ds[b as int].assigned_mirrors.len() < ds[j].assigned_mirrors.len()),
            decreases self.daemons@.len() - i,
        {
            proof {
                assert(ds[i as int] == self.daemons@[i as int]@);
            }
            if self.daemons[i].health == DaemonHealth::Healthy {
                match best {
                    None => {
                        best = Some(i);
                    },
                    Some(b) => {
                        proof {
                            assert(ds[b as int] == self.daemons@[b as int]@);
                        }
                        if self.daemons[i].assigned_mirrors.len() < self.daemons[b].assigned_mirrors.len() {
                            best = Some(i);
                        }
                    },
                }
            }
            i = i + 1;
        }
        match best {
            None => None,
            Some(b) => {
                proof {
                    assert(least_loaded(ds, b as int));
                    assert(ds[b as int] == self.daemons@[b as int]@);
                }
                let m = owned(mirror_id);
                let mut d = self.daemons.remove(b);
                let ghost d0 = d@;
                d.assigned_mirrors.push(m);
                proof {
                    assert(d@.assigned_mirrors =~= d0.assigned_mirrors.push(mirror_id@));
                    assert(d@ == with_mirror(d0, mirror_id@));
                }
                let id = d.id;
                self.daemons.insert(b, d);
                proof {
                    assert(self.daemons_view() =~= ds.update(b as int, with_mirror(ds[b as int], mirror_id@)));
                }
                Some(id)
            },
        }
    }

    /// Takes the mirror off every daemon.
    pub fn unassign_mirror(&mut self, mirror_id: &str)
        ensures
            final(self).config == old(self).config,
            final(self).detected_cores == old(self).detected_cores,
            final(self).tor_data_dir == old(self).tor_data_dir,
            final(self).daemons_view().len() == old(self).daemons_view().len(),
            forall|i: int| 0 <= i < old(self).daemons_view().len() ==> #[trigger] final(self).daemons_view()[i]
                == without_mirror(old(self).daemons_view()[i], mirror_id@),
    {
        let ghost ds = self.daemons_view();
        let mut i: usize = 0;
        while i < self.daemons.len()
            invariant
                i <= self.daemons@.len(),
                self.daemons@.len() == ds.len(),
                self.config == old(self).config,
                self.detected_cores == old(self).detected_cores,
                self.tor_data_dir == old(self).tor_data_dir,
                forall|j: int| 0 <= j < i ==> #[trigger] self.daemons_view()[j] == without_mirror(ds[j], mirror_id@),
                forall|j: int| i <= j < ds.len() ==> #[trigger] self.daemons_view()[j] == ds[j],
            decreases self.daemons@.len() - i,
        {
            let ghost before = self.daemons_view();
            let mut d = self.daemons.remove(i);
            proof {
                assert(d@ == before[i as int]);
            }
            let kept = strings_without(&d.assigned_mirrors, mirror_id);
            d.assigned_mirrors = kept;
            proof {
                assert(d@ == without_mirror(ds[i as int], mirror_id@));
            }
            self.daemons.insert(i, d);
            proof {
                assert(self.daemons_view() =~= before.update(i as int, without_mirror(ds[i as int], mirror_id@)));
            }
            i = i + 1;
        }
    }

    /// A copy of the first daemon that serves the mirror, if any.
    pub fn get_daemon_for_mirror(&self, mirror_id: &str) -> (r: Option<TorDaemon>)
        ensures
            r is None <==> forall|j: int| 0 <= j < self.daemons_view().len() ==> !#[trigger] serves(self.daemons_view()[j], mirror_id@),
            r matches Some(d) ==> exists|i: int| 0 <= i < self.daemons_view().len()
                && #[trigger] serves(self.daemons_view()[i], mirror_id@)
                && (forall|j: int| 0 <= j < i ==> !#[trigger] serves(self.daemons_view()[j], mirror_id@))
                && d@ == self.daemons_view()[i],
    {
        let ghost ds = self.daemons_view();
        let mut i: usize = 0;
        while i < self.daemons.len()
            invariant
                i <= self.daemons@.len(),
                ds == self.daemons_view(),
                forall|j: int| 0 <= j < i ==> !#[trigger] serves(ds[j], mirror_id@),
            decreases self.daemons@.len() - i,
        {
            proof {
                assert(ds[i as int] == self.daemons@[i as int]@);
            }
            if contains_string(&self.daemons[i].assigned_mirrors, mirror_id) {
                let d = self.daemons[i].snapshot();
                proof {
                    assert(serves(ds[i as int], mirror_id@));
                }
                return Some(d);
            }
            i = i + 1;
        }
        None
    }

    /// A copy of every daemon, in order.
    pub fn get_daemon_statuses(&self) -> (r: Vec<TorDaemon>)
        ensures
            r@.map_values(|d: TorDaemon| d@) == self.daemons_view(),
    {
        let mut r: Vec<TorDaemon> = Vec::new();
        let mut i: usize = 0;
        while i < self.daemons.len()
            invariant
                i <= self.daemons@.len(),
                r@.len() == i,
                forall|j: int| 0 <= j < i ==> #[trigger] r@[j]@ == self.daemons@[j]@,
            decreases self.daemons@.len() - i,
        {
            r.push(self.daemons[i].snapshot());
            i = i + 1;
        }
        proof {
            assert(r@.map_values(|d: TorDaemon| d@) =~= self.daemons_view());
        }
        r
    }

    /// Marks daemon `daemon_id` stopped: with a process, its process number
    /// is forgotten and returned (the caller sends it SIGTERM) and the daemon
    /// counts as dead; without one nothing changes.
    pub fn stop_daemon(&mut self, daemon_id: usize) -> (r: Result<Option<u32>, DaemonError>)
        ensures
            final(self).config == old(self).config,
            final(self).detected_cores == old(self).detected_cores,
            final(self).tor_data_dir == old(self).tor_data_dir,
            daemon_id >= old(self).daemons_view().len() ==> r == Err::<Option<u32>, DaemonError>(DaemonError::NotFound(daemon_id))
                && final(self).daemons_view() == old(self).daemons_view(),
            daemon_id < old(self).daemons_view().len() ==> ({
                let d = old(self).daemons_view()[daemon_id as int];
                &&& r == Ok::<Option<u32>, DaemonError>(d.pid)
                &&& final(self).daemons_view() == if d.pid is Some {
                        old(self).daemons_view().update(daemon_id as int, stopped(d))
                    } else {
                        old(self).daemons_view()
                    }
            }),
    {
        if daemon_id >= self.daemons.len() {
            return Err(DaemonError::NotFound(daemon_id));
        }
        let ghost ds = self.daemons_view();
        let pid = self.daemons[daemon_id].pid;
        proof {
            assert(ds[daemon_id as int] == self.daemons@[daemon_id as int]@);
        }
        if pid.is_some() {
            let mut d = self.daemons.remove(daemon_id);
            d.pid = None;
            d.health = DaemonHealth::Dead;
            self.daemons.insert(daemon_id, d);
            proof {
                assert(self.daemons_view() =~= ds.update(daemon_id as int, stopped(ds[daemon_id as int])));
            }
        }
        Ok(pid)
    }

    /// Marks every daemon up to the daemon count stopped, and returns the
    /// process numbers the caller must send SIGTERM, in daemon order.
    pub fn stop_all(&mut self) -> (pids: Vec<u32>)
        ensures
            final(self).config == old(self).config,
            final(self).daemons_view().len() == old(self).daemons_view().len(),
            forall|i: int| 0 <= i < old(self).daemons_view().len() ==> #[trigger] final(self).daemons_view()[i]
                == if i < self_count(old(self)) && old(self).daemons_view()[i].pid is Some {
                    stopped(old(self).daemons_view()[i])
                } else {
                    old(self).daemons_view()[i]
                },
            pids@ == stopped_pids(old(self).daemons_view(), self_count(old(self))),
    {
        let count = self.daemon_count();
        let ghost ds = self.daemons_view();
        let mut pids: Vec<u32> = Vec::new();
        let mut i: usize = 0;
        while i < count
            invariant
                i <= count,
                count == self_count(old(self)),
                self.config == old(self).config,
                self.detected_cores == old(self).detected_cores,
                self.daemons_view().len() == ds.len(),
                ds == old(self).daemons_view(),
                forall|j: int| 0 <= j < ds.len() ==> #[trigger] self.daemons_view()[j]
                    == if j < i && ds[j].pid is Some { stopped(ds[j]) } else { ds[j] },
                pids@ == stopped_pids(ds, i as int),
            decreases count - i,
        {
            let ghost before = self.daemons_view();
            let r = self.stop_daemon(i);
            proof {
                reveal_with_fuel(stopped_pids, 1);
                if i < ds.len() {
                    assert(before[i as int] == ds[i as int]);
                    assert forall|j: int| 0 <= j < ds.len() implies #[trigger] self.daemons_view()[j]
                        == if j < i + 1 && ds[j].pid is Some { stopped(ds[j]) } else { ds[j] } by {
                        if j != i {
                            assert(self.daemons_view()[j] == before[j]);
                        }
                    }
                }
            }
            match r {
                Ok(Some(pid)) => {
                    pids.push(pid);
                },
                _ => {},
            }
            i = i + 1;
        }
        pids
    }

    /// The process and control port to check for daemon `daemon_id`, or
    /// nothing when there is no such daemon or it has no process (it then
    /// counts as dead).
    pub fn health_probe_target(&self, daemon_id: usize) -> (r: Option<(u32, u16)>)
        ensures
            daemon_id >= self.daemons_view().len() ==> r is None,
            daemon_id < self.daemons_view().len() ==> r == match self.daemons_view()[daemon_id as int].pid {
                Some(pid) => Some((pid, self.daemons_view()[daemon_id as int].control_port)),
                None => None::<(u32, u16)>,
            },
    {
        if daemon_id >= self.daemons.len() {
            return None;
        }
        proof {
            assert(self.daemons_view()[daemon_id as int] == self.daemons@[daemon_id as int]@);
        }
        match self.daemons[daemon_id].pid {
            Some(pid) => Some((pid, self.daemons[daemon_id].control_port)),
            None => None,
        }
    }

    /// Records the outcome of a health check of daemon `daemon_id`: whether
    /// its control port accepted a connection and, if not, whether its
    /// process still runs. Returns the daemon's health afterwards.
    pub fn record_health_check(&mut self, daemon_id: usize, port_reachable: bool, process_alive: bool) -> (h: DaemonHealth)
        requires
            daemon_id < old(self).daemons_view().len() && old(self).daemons_view()[daemon_id as int].pid is Some
                && !port_reachable && process_alive
                ==> old(self).daemons_view()[daemon_id as int].health_failures < u32::MAX,
        ensures
            final(self).config == old(self).config,
            final(self).detected_cores == old(self).detected_cores,
            final(self).tor_data_dir == old(self).tor_data_dir,
            daemon_id >= old(self).daemons_view().len() || old(self).daemons_view()[daemon_id as int].pid is None
                ==> h == DaemonHealth::Dead && final(self).daemons_view() == old(self).daemons_view(),
            daemon_id < old(self).daemons_view().len() && old(self).daemons_view()[daemon_id as int].pid is Some ==> ({
                let d = old(self).daemons_view()[daemon_id as int];
                let d2 = checked(d, port_reachable, process_alive, old(self).config.max_health_failures);
                &&& final(self).daemons_view() == old(self).daemons_view().update(daemon_id as int, d2)
                &&& h == d2.health
            }),
    {
        if daemon_id >= self.daemons.len() {
            return DaemonHealth::Dead;
        }
        let ghost ds = self.daemons_view();
        proof {
            assert(ds[daemon_id as int] == self.daemons@[daemon_id as int]@);
        }
        if self.daemons[daemon_id].pid.is_none() {
            return DaemonHealth::Dead;
        }
        let max_failures = self.config.max_health_failures;
        let mut d = self.daemons.remove(daemon_id);
        if port_reachable {
            d.health = DaemonHealth::Healthy;
            d.health_failures = 0;
        } else if process_alive {
            d.health_failures = d.health_failures + 1;
            if d.health_failures >= max_failures {
                d.health = DaemonHealth::Unhealthy;
            } else {
                d.health = DaemonHealth::Degraded;
            }
        } else {
            d.health = DaemonHealth::Dead;
            d.pid = None;
        }
        let h = d.health;
        self.daemons.insert(daemon_id, d);
        proof {
            assert(self.daemons_view() =~= ds.update(daemon_id as int,
                checked(ds[daemon_id as int], port_reachable, process_alive, max_failures)));
        }
        h
    }

    /// What it takes to start daemon `daemon_id`: its directory, its torrc
    /// and the command line, pinned with `taskset` when pinning is on and the
    /// daemon has a core.
    pub fn launch_plan(&self, daemon_id: usize) -> (r: Result<DaemonLaunch, DaemonError>)
        ensures
            daemon_id >= self.daemons_view().len() ==> r == Err::<DaemonLaunch, DaemonError>(DaemonError::NotFound(daemon_id)),
            daemon_id < self.daemons_view().len() ==> (r matches Ok(p) && launch_of(p, self.daemons_view()[daemon_id as int], self.config.cpu_affinity)),
    {
        if daemon_id >= self.daemons.len() {
            return Err(DaemonError::NotFound(daemon_id));
        }
        let d = &self.daemons[daemon_id];
        proof {
            assert(self.daemons_view()[daemon_id as int] == d@);
        }
        let data_dir = d.data_dir.clone();
        let torrc_path = join_path(d.data_dir.as_str(), "torrc");
        let torrc = daemon_torrc(d.id, d.socks_port, d.control_port, d.data_dir.as_str());
        let mut args: Vec<String> = Vec::new();
        let program;
        let tail = torrc_path.clone();
        if self.config.cpu_affinity && d.cpu_core.is_some() {
            program = owned("taskset");
            let core = u64_to_decimal(d.cpu_core.unwrap() as u64);
            args.push(owned("-c"));
            args.push(core);
            args.push(owned("tor"));
            args.push(owned("-f"));
            args.push(tail);
            proof {
                assert(views(args@) =~= seq!["-c"@, decimal(d@.cpu_core->0 as nat), "tor"@, "-f"@, torrc_path@]);
            }
        } else {
            program = owned("tor");
            args.push(owned("-f"));
            args.push(tail);
            proof {
                assert(views(args@) =~= seq!["-f"@, torrc_path@]);
            }
        }
        let p = DaemonLaunch { data_dir, torrc_path, torrc, program, args };
        proof {
            assert(launch_of(p, d@, self.config.cpu_affinity));
        }
        Ok(p)
    }

    /// Records that daemon `daemon_id` was started as process `pid`; false
    /// when there is no such daemon.
    pub fn record_started(&mut self, daemon_id: usize, pid: u32) -> (found: bool)
        ensures
            final(self).config == old(self).config,
            found == (daemon_id < old(self).daemons_view().len()),
            !found ==> final(self).daemons_view() == old(self).daemons_view(),
            found ==> final(self).daemons_view() == old(self).daemons_view().update(daemon_id as int,
                TorDaemonView { pid: Some(pid), health: DaemonHealth::Starting, ..old(self).daemons_view()[daemon_id as int] }),
    {
        if daemon_id >= self.daemons.len() {
            return false;
        }
        let ghost ds = self.daemons_view();
        let mut d = self.daemons.remove(daemon_id);
        proof {
            assert(d@ == ds[daemon_id as int]);
        }
        d.pid = Some(pid);
        d.health = DaemonHealth::Starting;
        self.daemons.insert(daemon_id, d);
        proof {
            assert(self.daemons_view() =~= ds.update(daemon_id as int,
                TorDaemonView { pid: Some(pid), health: DaemonHealth::Starting, ..ds[daemon_id as int] }));
        }
        true
    }
}

/// What the flex core is doing.
#[derive(Debug, Clone, Copy, PartialEq, Eq, Structural)]
pub enum FlexCoreMode {
    /// Background work: pre-generating CAPTCHAs.
    Standby,
    /// Running an extra mirror and healthy nodes.
    EmergencyMirror,
    /// Running extra healthy nodes.
    HealthyOverflow,
    /// Running extra threat nodes.
    ThreatOverflow,
}

/// What a CPU core is for.
#[derive(Debug)]
pub enum CoreRole {
    /// A mirror, maybe a standby, and some healthy nodes.
    Primary { mirror: String, standby: Option<String>, healthy_nodes: Vec<usize> },
    /// Nodes for suspicious traffic.
    Threat { threat_nodes: Vec<usize> },
    /// Whatever the machine needs most.
    Flex,
}

/// A core and its role.
#[derive(Debug)]
pub struct CoreAssignment {
    pub core_id: usize,
    pub role: CoreRole,
}

/// The roles of the cores. The flex core's thresholds, which are
/// fractions, are kept by the caller.
#[derive(Debug)]
pub struct CoreLayoutConfig {
    pub core_assignments: Vec<CoreAssignment>,
}

/// A core's role as plain values: its kind (0 primary, 1 threat, 2 flex),
/// its mirror and standby, and its node numbers.
pub open spec fn role_view(r: CoreRole) -> (int, Seq<char>, Option<Seq<char>>, Seq<usize>) {
    match r {
        CoreRole::Primary { mirror, standby, healthy_nodes } =>
            (0, mirror@, match standby { Some(s) => Some(s@), None => None }, healthy_nodes@),
        CoreRole::Threat { threat_nodes } => (1, Seq::empty(), None, threat_nodes@),
        CoreRole::Flex => (2, Seq::empty(), None, Seq::empty()),
    }
}

/// The four-core layout: cores 0 and 1 each run a mirror with a standby
/// and five healthy nodes, core 2 is the flex core and core 3 runs three
/// threat nodes.
pub open spec fn default_layout() -> Seq<(usize, (int, Seq<char>, Option<Seq<char>>, Seq<usize>))> {
    seq![
        (0usize, (0int, "mirror-a"@, Some("standby-d"@), seq![0usize, 1, 2, 3, 4])),
        (1usize, (0int, "mirror-b"@, Some("standby-c"@), seq![5usize, 6, 7, 8, 9])),
        (2usize, (2int, Seq::<char>::empty(), None::<Seq<char>>, Seq::<usize>::empty())),
        (3usize, (1int, Seq::<char>::empty(), None::<Seq<char>>, seq![0usize, 1, 2])),
    ]
}

fn primary(core_id: usize, mirror: &str, standby: &str, first_node: usize) -> (a: CoreAssignment)
    requires
        first_node + 5 <= usize::MAX,
    ensures
        a.core_id == core_id,
        role_view(a.role) == (0int, mirror@, Some(standby@), seq![first_node, (first_node + 1) as usize,
            (first_node + 2) as usize, (first_node + 3) as usize, (first_node + 4) as usize]),
{
    let mut nodes: Vec<usize> = Vec::new();
    nodes.push(first_node);
    nodes.push(first_node + 1);
    nodes.push(first_node + 2);
    nodes.push(first_node + 3);
    nodes.push(first_node + 4);
    let a = CoreAssignment {
        core_id,
        role: CoreRole::Primary { mirror: owned(mirror), standby: Some(owned(standby)), healthy_nodes: nodes },
    };
    proof {
        assert(nodes@ =~= seq![first_node, (first_node + 1) as usize, (first_node + 2) as usize,
            (first_node + 3) as usize, (first_node + 4) as usize]);
    }
    a
}

impl Default for CoreLayoutConfig {
    fn default() -> (c: Self)
        ensures
            c.core_assignments@.len() == 4,
            forall|i: int| 0 <= i < 4 ==> (#[trigger] c.core_assignments@[i]).core_id == default_layout()[i].0
                && role_view(c.core_assignments@[i].role) == default_layout()[i].1,
    {
        let mut v: Vec<CoreAssignment> = Vec::new();
        v.push(primary(0, "mirror-a", "standby-d", 0));
        v.push(primary(1, "mirror-b", "standby-c", 5));
        v.push(CoreAssignment { core_id: 2, role: CoreRole::Flex });
        let mut threat: Vec<usize> = Vec::new();
        threat.push(0);
        threat.push(1);
        threat.push(2);
        proof {
            assert(threat@ =~= seq![0usize, 1, 2]);
        }
        v.push(CoreAssignment { core_id: 3, role: CoreRole::Threat { threat_nodes: threat } });
        proof {
            assert(role_view(v@[2].role) == default_layout()[2].1);
            assert(role_view(v@[3].role).3 =~= seq![0usize, 1, 2]);
            assert(role_view(v@[0].role).3 =~= seq![0usize, 1, 2, 3, 4]);
            assert(role_view(v@[1].role).3 =~= seq![5usize, 6, 7, 8, 9]);
        }
        CoreLayoutConfig { core_assignments: v }
    }
}

/// Whether a health check's outcome calls for a restart: the daemon is
/// unhealthy or dead.
pub fn needs_restart(h: DaemonHealth) -> (r: bool)
    ensures
        r == (h == DaemonHealth::Unhealthy || h == DaemonHealth::Dead),
{
    match h {
        DaemonHealth::Unhealthy | DaemonHealth::Dead => true,
        _ => false,
    }
}

/// Taking a mirror off the daemons leaves no daemon serving it.
pub proof fn law_unassigned_mirror_is_served_nowhere(d: TorDaemonView, mirror: Seq<char>)
    ensures
        !serves(without_mirror(d, mirror), mirror),
{
    let f = d.assigned_mirrors.filter(|m: Seq<char>| m != mirror);
    if f.contains(mirror) {
        let k = choose|k: int| 0 <= k < f.len() && f[k] == mirror;
        d.assigned_mirrors.lemma_filter_pred(|m: Seq<char>| m != mirror, k);
    }
}

/// A mirror that was just given to a daemon is served by that daemon, and
/// that daemon was healthy.
pub proof fn law_assigned_mirror_is_served(ds: Seq<TorDaemonView>, i: int, mirror: Seq<char>)
    requires
        least_loaded(ds, i),
    ensures
        serves(ds.update(i, with_mirror(ds[i], mirror))[i], mirror),
        is_healthy(ds.update(i, with_mirror(ds[i], mirror))[i]),
{
    let ms = ds[i].assigned_mirrors.push(mirror);
    assert(ms[ms.len() - 1] == mirror);
}

} // verus!
