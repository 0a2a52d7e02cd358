use vstd::prelude::*;
use vstd::string::StringExecFns;

verus! {

/// Relies on glob's `Pattern::new` accepting exactly the patterns of this
/// set; the set depends on the text alone.
pub uninterp spec fn glob_valid(pattern: Seq<char>) -> bool;

/// Relies on glob's `Pattern::matches`: whether the text `s` matches the
/// pattern compiled from `pattern`, with the default options.
pub uninterp spec fn glob_match(pattern: Seq<char>, s: Seq<char>) -> bool;

#[verifier::external_type_specification]
#[verifier::external_body]
pub struct ExPattern(glob::Pattern);

#[verifier::external_type_specification]
#[verifier::external_body]
pub struct ExPatternError(glob::PatternError);

/// Relies on glob's `Pattern::new`: compiles `s`, failing on an invalid pattern.
#[verifier::external_body]
fn compile_glob(s: &str) -> (r: Result<glob::Pattern, glob::PatternError>)
    ensures
        r is Ok <==> glob_valid(s@),
{
    glob::Pattern::new(s)
}

/// Relies on glob's `PatternError::pos`: where in the pattern the error is.
#[verifier::external_body]
fn glob_error_pos(e: &glob::PatternError) -> usize {
    e.pos
}

/// Relies on glob's `Pattern::matches` with default options, and on
/// `PatternWrapper::new` being the only place that sets the private
/// `pattern` and `text` fields: `pattern` is always compiled from `text`.
#[verifier::external_body]
fn glob_matches(w: &PatternWrapper, s: &str) -> (r: bool)
    ensures
        r == glob_match(w.text_spec(), s@),
{
    w.pattern.matches(s)
}

/// A metric collector of the host metrics source.
#[derive(Clone, Copy, Debug, PartialEq, Eq, Structural)]
pub enum Collector {
    Cpu,
    Disk,
    Filesystem,
    Load,
    Memory,
    Network,
}

/// The prefix put before every metric name; an empty one adds nothing.
#[derive(Debug)]
pub struct Namespace(pub String);

/// `word` under namespace `ns`: `ns_word`, or `word` alone when `ns` is empty.
pub open spec fn encode_spec(ns: Seq<char>, word: Seq<char>) -> Seq<char> {
    if ns.len() == 0 {
        word
    } else {
        ns + seq!['_'] + word
    }
}

impl Namespace {
    pub fn encode(&self, word: &str) -> (r: String)
        ensures
            r@ == encode_spec(self.0@, word@),
    {
        if self.0.as_str().is_empty() {
            String::from_str(word)
        } else {
            let mut s = self.0.clone();
            s.append("_");
            s.append(word);
            proof {
                reveal_strlit("_");
            }
            s
        }
    }
}

impl Default for Namespace {
    fn default() -> (r: Namespace)
        ensures
            r.0@ == seq!['h', 'o', 's', 't'],
    {
        proof {
            reveal_strlit("host");
        }
        Namespace(String::from_str("host"))
    }
}

/// Seconds between two scrapes when the configuration names none.
pub fn default_scrape_interval() -> (r: u64)
    ensures
        r == 15,
{
    15
}

/// Which collectors run: all of them where none are listed.
pub open spec fn has_collector_spec(collectors: Option<Seq<Collector>>, c: Collector) -> bool {
    match collectors {
        None => true,
        Some(cs) => cs.contains(c),
    }
}

/// The settings of the host metrics source that decide what is collected.
#[derive(Debug)]
pub struct HostMetricsConfig {
    pub scrape_interval_secs: u64,
    pub collectors: Option<Vec<Collector>>,
    pub namespace: Namespace,
    pub disk_devices: Option<Vec<PatternWrapper>>,
    pub filesystem_devices: Option<Vec<PatternWrapper>>,
    pub filesystem_filesystems: Option<Vec<PatternWrapper>>,
    pub filesystem_mountpoints: Option<Vec<PatternWrapper>>,
    pub network_devices: Option<Vec<PatternWrapper>>,
}

impl HostMetricsConfig {
    pub fn has_collector(&self, collector: Collector) -> (r: bool)
        ensures
            r == has_collector_spec(
                match self.collectors {
                    Some(v) => Some(v@),
                    None => None,
                },
                collector,
            ),
    {
        match &self.collectors {
            None => true,
            Some(cs) => {
                let mut i: usize = 0;
                while i < cs.len()
                    invariant
                        i <= cs@.len(),
                        self.collectors matches Some(v) && v@ == cs@,
                        forall|j: int| 0 <= j < i ==> cs@[j] != collector,
                    decreases cs@.len() - i,
                {
                    if cs[i] == collector {
                        assert(cs@[i as int] == collector);
                        assert(cs@.contains(collector));
                        return true;
                    }
                    i = i + 1;
                }
                false
            },
        }
    }
}

/// The text left after the leading `!` marks of a pattern.
pub open spec fn trim_bangs(s: Seq<char>) -> Seq<char>
    decreases s.len(),
{
    if s.len() > 0 && s[0] == '!' {
        trim_bangs(s.skip(1))
    } else {
        s
    }
}

/// Why a pattern was rejected: the position glob reported.
#[derive(Clone, Copy, Debug, PartialEq, Eq, Structural)]
pub struct InvalidPattern {
    pub pos: usize,
}

/// A glob pattern that may be negated by leading `!` marks.
#[derive(Debug)]
pub struct PatternWrapper {
    negate: bool,
    text: String,
    pattern: glob::Pattern,
}

impl PatternWrapper {
    /// Whether the pattern is negated.
    pub closed spec fn negate_spec(&self) -> bool {
        self.negate
    }

    /// The glob text that the pattern was compiled from.
    pub closed spec fn text_spec(&self) -> Seq<char> {
        self.text@
    }

    /// Whether the pattern accepts `s`.
    pub open spec fn matches_spec(&self, s: Seq<char>) -> bool {
        glob_match(self.text_spec(), s) != self.negate_spec()
    }

    /// Reads a pattern: leading `!` marks negate it, and the rest is a glob.
    pub fn new(s: &str) -> (r: Result<PatternWrapper, InvalidPattern>)
        ensures
            r is Ok <==> glob_valid(trim_bangs(s@)),
            r matches Ok(w) ==> w.negate_spec() == (s@.len() > 0 && s@[0] == '!')
                && w.text_spec() == trim_bangs(s@),
    {
        let n = s.unicode_len();
        let negate = n > 0 && s.get_char(0) == '!';
        let mut k: usize = 0;
        assert(s@.skip(0) =~= s@);
        while k < n && s.get_char(k) == '!'
            invariant
                n == s@.len(),
                k <= n,
                trim_bangs(s@.skip(k as int)) == trim_bangs(s@),
            decreases n - k,
        {
            proof {
                assert(s@.skip(k as int).skip(1) =~= s@.skip(k + 1));
            }
            k = k + 1;
        }
        let rest = s.substring_char(k, n);
        proof {
            assert(s@.subrange(k as int, n as int) =~= s@.skip(k as int));
        }
        match compile_glob(rest) {
            Ok(pattern) => Ok(PatternWrapper { negate, text: String::from_str(rest), pattern }),
            Err(e) => Err(InvalidPattern { pos: glob_error_pos(&e) }),
        }
    }

    pub fn matches(&self, s: &str) -> (r: bool)
        ensures
            r == self.matches_spec(s@),
    {
        glob_matches(self, s) != self.negate
    }

    /// Whether the pattern accepts a path, given as its text, or as `None`
    /// where the path is not valid UTF-8: such a path matches no glob, so only
    /// a negated pattern accepts it.
    pub fn matches_path(&self, path: Option<&str>) -> (r: bool)
        ensures
            r == match path {
                Some(t) => self.matches_spec(t@),
                None => self.negate_spec(),
            },
    {
        match path {
            Some(t) => self.matches(t),
            None => self.negate,
        }
    }

    /// The pattern as it is written in a configuration: `!` before a negated one.
    pub fn to_config_string(&self) -> (r: String)
        ensures
            r@ == if self.negate_spec() {
                seq!['!'] + self.text_spec()
            } else {
                self.text_spec()
            },
    {
        if self.negate {
            proof {
                reveal_strlit("!");
            }
            let s = String::from_str("!");
            s.concat(self.text.as_str())
        } else {
            self.text.clone()
        }
    }
}

/// Whether the optional list of patterns accepts `value`: no list accepts
/// everything, a list accepts what one of its patterns accepts.
pub fn vec_contains_str(list: &Option<Vec<PatternWrapper>>, value: &str) -> (r: Option<()>)
    ensures
        r is Some <==> accepts(*list, value@),
{
    match list {
        None => Some(()),
        Some(ps) => {
            let mut i: usize = 0;
            while i < ps.len()
                invariant
                    i <= ps@.len(),
                    list matches Some(v) && v@ == ps@,
                    forall|j: int| 0 <= j < i ==> !(#[trigger] ps@[j]).matches_spec(value@),
                decreases ps@.len() - i,
            {
                if ps[i].matches(value) {
                    assert(ps@[i as int].matches_spec(value@));
                    let ghost w = ps@;
                    assert(0 <= i < w.len() && w[i as int].matches_spec(value@));
                    assert(exists|j: int| 0 <= j < w.len() && (#[trigger] w[j]).matches_spec(value@));
                    return Some(());
                }
                i = i + 1;
            }
            None
        },
    }
}

/// The tags as plain text pairs, in insertion order.
pub open spec fn pairs_view(s: Seq<(String, String)>) -> Seq<(Seq<char>, Seq<char>)> {
    s.map_values(|p: (String, String)| (p.0@, p.1@))
}

/// Whether `i` is the first index of `s` whose key is `k`.
pub open spec fn is_first_key(s: Seq<(Seq<char>, Seq<char>)>, k: Seq<char>, i: int) -> bool {
    0 <= i < s.len() && s[i].0 == k && forall|j: int| 0 <= j < i ==> s[j].0 != k
}

/// Setting tag `k` to `v`: an existing tag of that key takes the new value
/// in place; otherwise the tag is added at the end.
pub open spec fn insert_spec(s: Seq<(Seq<char>, Seq<char>)>, k: Seq<char>, v: Seq<char>) -> Seq<
    (Seq<char>, Seq<char>),
> {
    if exists|i: int| is_first_key(s, k, i) {
        s.update(choose|i: int| is_first_key(s, k, i), (k, v))
    } else {
        s.push((k, v))
    }
}

/// The tags of a metric: one value per key.
#[derive(Debug)]
pub struct Tags {
    entries: Vec<(String, String)>,
}

impl Tags {
    pub closed spec fn pairs(&self) -> Seq<(Seq<char>, Seq<char>)> {
        pairs_view(self.entries@)
    }

    pub fn new() -> (r: Tags)
        ensures
            r.pairs() == Seq::<(Seq<char>, Seq<char>)>::empty(),
    {
        let r = Tags { entries: Vec::new() };
        assert(r.pairs() =~= Seq::<(Seq<char>, Seq<char>)>::empty());
        r
    }

    pub fn len(&self) -> (r: usize)
        ensures
            r == self.pairs().len(),
    {
        self.entries.len()
    }

    /// Sets tag `key` to `value`.
    pub fn insert(&mut self, key: &str, value: &str)
        ensures
            final(self).pairs() == insert_spec(old(self).pairs(), key@, value@),
    {
        let k = String::from_str(key);
        let ghost s = self.pairs();
        let mut i: usize = 0;
        while i < self.entries.len()
            invariant
                i <= self.entries@.len(),
                s == pairs_view(self.entries@),
                s == old(self).pairs(),
                k@ == key@,
                forall|j: int| 0 <= j < i ==> s[j].0 != k@,
            decreases self.entries@.len() - i,
        {
            if self.entries[i].0 == k {
                proof {
                    assert(is_first_key(s, k@, i as int));
                    let c = choose|c: int| is_first_key(s, k@, c);
                    assert(c == i) by {
                        if c < i {
                            assert(s[c].0 != k@);
                        } else if c > i {
                            assert(s[i as int].0 != k@);
                        }
                    }
                }
                self.entries.set(i, (k, String::from_str(value)));
                assert(self.pairs() =~= insert_spec(s, key@, value@));
                return;
            }
            i = i + 1;
        }
        proof {
            assert forall|c: int| !is_first_key(s, key@, c) by {
                if 0 <= c < s.len() {
                    assert(s[c].0 != k@);
                }
            }
        }
        self.entries.push((k, String::from_str(value)));
        assert(self.pairs() =~= insert_spec(s, key@, value@));
    }

    /// The value of tag `key`, if it is set.
    pub fn get(&self, key: &str) -> (r: Option<&String>)
        ensures
            r matches Some(v) ==> exists|i: int| is_first_key(self.pairs(), key@, i)
                && self.pairs()[i].1 == v@,
            r is None ==> forall|i: int| !is_first_key(self.pairs(), key@, i),
    {
        let k = String::from_str(key);
        let ghost s = self.pairs();
        let mut i: usize = 0;
        while i < self.entries.len()
            invariant
                i <= self.entries@.len(),
                s == pairs_view(self.entries@),
                s == self.pairs(),
                k@ == key@,
                forall|j: int| 0 <= j < i ==> s[j].0 != k@,
            decreases self.entries@.len() - i,
        {
            if self.entries[i].0 == k {
                assert(is_first_key(s, key@, i as int));
                assert(s[i as int].1 == self.entries@[i as int].1@);
                return Some(&self.entries[i].1);
            }
            i = i + 1;
        }
        proof {
            assert forall|c: int| !is_first_key(s, key@, c) by {
                if 0 <= c < s.len() {
                    assert(s[c].0 != k@);
                }
            }
        }
        None
    }
}

/// A metric as the collectors name and tag it.
#[derive(Debug)]
pub struct Metric {
    pub name: String,
    pub tags: Tags,
}

/// Whether an optional list of patterns accepts a path (see
/// `PatternWrapper::matches_path`).
pub open spec fn accepts_path(list: Option<Vec<PatternWrapper>>, path: Option<Seq<char>>) -> bool {
    match list {
        None => true,
        Some(v) => exists|i: int|
            0 <= i < v@.len() && match path {
                Some(t) => (#[trigger] v@[i]).matches_spec(t),
                None => v@[i].negate_spec(),
            },
    }
}

/// The text of a path as plain values.
pub open spec fn opt_text(path: Option<&str>) -> Option<Seq<char>> {
    match path {
        Some(t) => Some(t@),
        None => None,
    }
}

pub fn vec_contains_path(list: &Option<Vec<PatternWrapper>>, path: Option<&str>) -> (r: Option<()>)
    ensures
        r is Some <==> accepts_path(*list, opt_text(path)),
{
    match list {
        None => Some(()),
        Some(ps) => {
            let mut i: usize = 0;
            while i < ps.len()
                invariant
                    i <= ps@.len(),
                    list matches Some(v) && v@ == ps@,
                    forall|j: int|
                        0 <= j < i ==> !match path {
                            Some(t) => (#[trigger] ps@[j]).matches_spec(t@),
                            None => ps@[j].negate_spec(),
                        },
                decreases ps@.len() - i,
            {
                if ps[i].matches_path(path) {
                    return Some(());
                }
                i = i + 1;
            }
            None
        },
    }
}

/// Sets tag `key` to `value` on every metric.
pub fn tag_all(metrics: Vec<Metric>, key: &str, value: &str) -> (r: Vec<Metric>)
    ensures
        r@.len() == metrics@.len(),
        forall|i: int|
            0 <= i < r@.len() ==> (#[trigger] r@[i]).name == metrics@[i].name && r@[i].tags.pairs()
                == insert_spec(metrics@[i].tags.pairs(), key@, value@),
{
    let mut metrics = metrics;
    let ghost orig = metrics@;
    let mut i: usize = 0;
    while i < metrics.len()
        invariant
            i <= metrics@.len(),
            metrics@.len() == orig.len(),
            forall|j: int| i <= j < metrics@.len() ==> #[trigger] metrics@[j] == orig[j],
            forall|j: int|
                0 <= j < i ==> (#[trigger] metrics@[j]).name == orig[j].name
                    && metrics@[j].tags.pairs() == insert_spec(orig[j].tags.pairs(), key@, value@),
        decreases metrics@.len() - i,
    {
        let ghost before = metrics@;
        metrics[i].tags.insert(key, value);
        assert(forall|j: int| 0 <= j < metrics@.len() && j != i ==> metrics@[j] == before[j]);
        i = i + 1;
    }
    metrics
}

pub open spec fn collector_key() -> Seq<char> {
    seq!['c', 'o', 'l', 'l', 'e', 'c', 't', 'o', 'r']
}

pub open spec fn host_key() -> Seq<char> {
    seq!['h', 'o', 's', 't']
}

/// Tags every metric with the collector that produced it.
pub fn add_collector(collector: &str, metrics: Vec<Metric>) -> (r: Vec<Metric>)
    ensures
        r@.len() == metrics@.len(),
        forall|i: int|
            0 <= i < r@.len() ==> (#[trigger] r@[i]).name == metrics@[i].name && r@[i].tags.pairs()
                == insert_spec(metrics@[i].tags.pairs(), collector_key(), collector@),
{
    proof {
        reveal_strlit("collector");
    }
    assert("collector"@ =~= collector_key());
    tag_all(metrics, "collector", collector)
}

/// Tags every metric with the name of the host it was taken on.
pub fn add_host(hostname: &str, metrics: Vec<Metric>) -> (r: Vec<Metric>)
    ensures
        r@.len() == metrics@.len(),
        forall|i: int|
            0 <= i < r@.len() ==> (#[trigger] r@[i]).name == metrics@[i].name && r@[i].tags.pairs()
                == insert_spec(metrics@[i].tags.pairs(), host_key(), hostname@),
{
    proof {
        reveal_strlit("host");
    }
    assert("host"@ =~= host_key());
    tag_all(metrics, "host", hostname)
}

impl Collector {
    /// The name a collector's metrics are tagged with.
    pub fn name(&self) -> (r: &'static str)
        ensures
            r@ == collector_name(*self),
    {
        proof {
            reveal_strlit("cpu");
            reveal_strlit("disk");
            reveal_strlit("filesystem");
            reveal_strlit("load");
            reveal_strlit("memory");
            reveal_strlit("network");
        }
        match self {
            Collector::Cpu => "cpu",
            Collector::Disk => "disk",
            Collector::Filesystem => "filesystem",
            Collector::Load => "load",
            Collector::Memory => "memory",
            Collector::Network => "network",
        }
    }
}

pub open spec fn collector_name(c: Collector) -> Seq<char> {
    match c {
        Collector::Cpu => seq!['c', 'p', 'u'],
        Collector::Disk => seq!['d', 'i', 's', 'k'],
        Collector::Filesystem => seq!['f', 'i', 'l', 'e', 's', 'y', 's', 't', 'e', 'm'],
        Collector::Load => seq!['l', 'o', 'a', 'd'],
        Collector::Memory => seq!['m', 'e', 'm', 'o', 'r', 'y'],
        Collector::Network => seq!['n', 'e', 't', 'w', 'o', 'r', 'k'],
    }
}

/// Every collector, in the order a scrape runs them.
pub open spec fn all_collectors() -> Seq<Collector> {
    seq![
        Collector::Cpu,
        Collector::Disk,
        Collector::Filesystem,
        Collector::Load,
        Collector::Memory,
        Collector::Network,
    ]
}

/// The collectors among the first `n` of `all_collectors()` that run.
pub open spec fn run_prefix(collectors: Option<Seq<Collector>>, n: nat) -> Seq<Collector>
    decreases n,
{
    if n == 0 {
        Seq::empty()
    } else {
        let before = run_prefix(collectors, (n - 1) as nat);
        let c = all_collectors()[n - 1];
        if has_collector_spec(collectors, c) {
            before.push(c)
        } else {
            before
        }
    }
}

pub open spec fn collectors_view(collectors: Option<Vec<Collector>>) -> Option<Seq<Collector>> {
    match collectors {
        Some(v) => Some(v@),
        None => None,
    }
}

/// Whether an optional list of patterns accepts `value`: no list accepts
/// everything, a list accepts what one of its patterns accepts.
pub open spec fn accepts(list: Option<Vec<PatternWrapper>>, value: Seq<char>) -> bool {
    match list {
        None => true,
        Some(v) => exists|i: int| 0 <= i < v@.len() && (#[trigger] v@[i]).matches_spec(value),
    }
}

impl HostMetricsConfig {
    /// The collectors a scrape runs, in scrape order.
    pub fn collectors_to_run(&self) -> (r: Vec<Collector>)
        ensures
            r@ == run_prefix(collectors_view(self.collectors), 6),
    {
        let all = [
            Collector::Cpu,
            Collector::Disk,
            Collector::Filesystem,
            Collector::Load,
            Collector::Memory,
            Collector::Network,
        ];
        assert(all@ =~= all_collectors());
        let mut r: Vec<Collector> = Vec::new();
        let mut i: usize = 0;
        while i < 6
            invariant
                i <= 6,
                all@ == all_collectors(),
                r@ == run_prefix(collectors_view(self.collectors), i as nat),
            decreases 6 - i,
        {
            if self.has_collector(all[i]) {
                r.push(all[i]);
            }
            i = i + 1;
        }
        r
    }

    /// Whether a disk's I/O counters are reported; `device` is the device
    /// name's text, `None` where it is not valid UTF-8.
    pub fn accepts_disk(&self, device: Option<&str>) -> (r: bool)
        ensures
            r == accepts_path(self.disk_devices, opt_text(device)),
    {
        vec_contains_path(&self.disk_devices, device).is_some()
    }

    /// Whether a network interface's counters are reported.
    pub fn accepts_interface(&self, interface: &str) -> (r: bool)
        ensures
            r == accepts(self.network_devices, interface@),
    {
        vec_contains_str(&self.network_devices, interface).is_some()
    }

    /// Whether a partition's usage is reported: its mount point, its device
    /// (a partition without one passes only where no device list is set) and
    /// its file system must each be accepted. Paths are given as their text,
    /// `None` where it is not valid UTF-8; `device` is `None` for a partition
    /// without a device.
    pub fn accepts_partition(
        &self,
        mountpoint: Option<&str>,
        device: Option<Option<&str>>,
        filesystem: &str,
    ) -> (r: bool)
        ensures
            r == (accepts_path(self.filesystem_mountpoints, opt_text(mountpoint))
                && match self.filesystem_devices {
                None => true,
                Some(_) => device matches Some(d) && accepts_path(
                    self.filesystem_devices,
                    opt_text(d),
                ),
            } && accepts(self.filesystem_filesystems, filesystem@)),
    {
        if vec_contains_path(&self.filesystem_mountpoints, mountpoint).is_none() {
            return false;
        }
        let device_ok = match &self.filesystem_devices {
            None => true,
            Some(_) => match device {
                Some(d) => vec_contains_path(&self.filesystem_devices, d).is_some(),
                None => false,
            },
        };
        device_ok && vec_contains_str(&self.filesystem_filesystems, filesystem).is_some()
    }

    /// The full name of a metric: the namespace, then `name`.
    pub fn metric_name(&self, name: &str) -> (r: String)
        ensures
            r@ == encode_spec(self.namespace.0@, name@),
    {
        self.namespace.encode(name)
    }
}

/// A metric as plain values: its name and its tags.
pub open spec fn metric_view(m: Metric) -> (Seq<char>, Seq<(Seq<char>, Seq<char>)>) {
    (m.name@, m.tags.pairs())
}

/// The metrics `ms` with tag `k` set to `v`, as plain values.
pub open spec fn tagged_view(ms: Seq<Metric>, k: Seq<char>, v: Seq<char>) -> Seq<
    (Seq<char>, Seq<(Seq<char>, Seq<char>)>),
> {
    ms.map_values(|m: Metric| (m.name@, insert_spec(m.tags.pairs(), k, v)))
}

/// The metrics of the batches whose collector runs, each tagged with its
/// collector, batch after batch.
pub open spec fn gathered(
    collectors: Option<Seq<Collector>>,
    batches: Seq<(Collector, Vec<Metric>)>,
) -> Seq<(Seq<char>, Seq<(Seq<char>, Seq<char>)>)>
    decreases batches.len(),
{
    if batches.len() == 0 {
        Seq::empty()
    } else {
        let before = gathered(collectors, batches.drop_last());
        let (c, ms) = batches.last();
        if has_collector_spec(collectors, c) {
            before + tagged_view(ms@, collector_key(), collector_name(c))
        } else {
            before
        }
    }
}

impl HostMetricsConfig {
    /// One scrape's metrics from what each collector gathered: batches of
    /// collectors that do not run are left out, every metric is tagged with
    /// its collector and, where the host name is known, with the host.
    pub fn capture_metrics(&self, batches: Vec<(Collector, Vec<Metric>)>, hostname: Option<&str>) -> (r:
        Vec<Metric>)
        ensures
            r@.map_values(|m: Metric| metric_view(m)) == match hostname {
                None => gathered(collectors_view(self.collectors), batches@),
                Some(h) => gathered(collectors_view(self.collectors), batches@).map_values(
                    |mv: (Seq<char>, Seq<(Seq<char>, Seq<char>)>)|
                        (mv.0, insert_spec(mv.1, host_key(), h@)),
                ),
            },
    {
        let mut batches = batches;
        let ghost orig = batches@;
        let ghost cs = collectors_view(self.collectors);
        let mut out: Vec<Metric> = Vec::new();
        let mut i: usize = 0;
        assert(out@.map_values(|m: Metric| metric_view(m)) =~= gathered(cs, orig.take(0)));
        while i < batches.len()
            invariant
                i <= batches@.len(),
                batches@.len() == orig.len(),
                cs == collectors_view(self.collectors),
                forall|j: int| i <= j < batches@.len() ==> #[trigger] batches@[j] == orig[j],
                out@.map_values(|m: Metric| metric_view(m)) == gathered(cs, orig.take(i as int)),
            decreases batches@.len() - i,
        {
            let c = batches[i].0;
            let mut ms: Vec<Metric> = Vec::new();
            let ghost before = batches@;
            std::mem::swap(&mut ms, &mut batches[i].1);
            assert(forall|j: int| 0 <= j < batches@.len() && j != i ==> batches@[j] == before[j]);
            assert(orig.take(i + 1).drop_last() =~= orig.take(i as int));
            assert(ms@ == orig[i as int].1@);
            if self.has_collector(c) {
                let tagged = add_collector(c.name(), ms);
                let ghost prev = out@;
                let mut tagged = tagged;
                assert(tagged@.map_values(|m: Metric| metric_view(m)) =~= tagged_view(
                    orig[i as int].1@,
                    collector_key(),
                    collector_name(c),
                ));
                out.append(&mut tagged);
                assert(out@.map_values(|m: Metric| metric_view(m)) =~= prev.map_values(
                    |m: Metric| metric_view(m),
                ) + tagged_view(orig[i as int].1@, collector_key(), collector_name(c)));
            }
            i = i + 1;
        }
        assert(orig.take(i as int) =~= orig);
        match hostname {
            None => out,
            Some(h) => {
                let ghost prev = out@;
                let r = add_host(h, out);
                assert(r@.map_values(|m: Metric| metric_view(m)) =~= prev.map_values(
                    |m: Metric| metric_view(m),
                ).map_values(
                    |mv: (Seq<char>, Seq<(Seq<char>, Seq<char>)>)|
                        (mv.0, insert_spec(mv.1, host_key(), h@)),
                ));
                r
            },
        }
    }
}

} // verus!
