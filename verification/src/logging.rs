//! Logging configuration, and the level filter that decides which log
//! records a configured logger emits.
//!
//! The filter holds a default minimum level and a list of module-prefix
//! overrides, kept sorted by prefix in descending lexicographic order so
//! that the most specific prefix of a module is found first (a record from
//! module `a::b` must match the `a::b` override, not the shorter `a`).
use vstd::prelude::*;

use vstd::string::StrSliceExecFns;

verus! {

/// Possible logging levels, least severe first.
#[derive(Clone, Copy, PartialEq, Eq, Debug)]
pub enum LoggingLevel {
    Debug,
    Info,
    Warning,
    Error,
    Critical,
}

/// Severity rank of a level: greater is more severe.
pub open spec fn level_rank(level: LoggingLevel) -> nat {
    match level {
        LoggingLevel::Debug => 1,
        LoggingLevel::Info => 2,
        LoggingLevel::Warning => 3,
        LoggingLevel::Error => 4,
        LoggingLevel::Critical => 5,
    }
}

impl LoggingLevel {
    /// Whether a record of this level is at least as severe as `min`.
    pub fn is_at_least(self, min: LoggingLevel) -> (r: bool)
        ensures
            r == (level_rank(self) >= level_rank(min)),
    {
        self.rank() >= min.rank()
    }

    /// Exec form of [`level_rank`].
    fn rank(self) -> (r: u8)
        ensures
            r == level_rank(self),
    {
        match self {
            LoggingLevel::Debug => 1,
            LoggingLevel::Info => 2,
            LoggingLevel::Warning => 3,
            LoggingLevel::Error => 4,
            LoggingLevel::Critical => 5,
        }
    }
}

impl Default for LoggingLevel {
    /// The default minimum level reports informational records and above.
    fn default() -> (r: LoggingLevel)
        ensures
            r == LoggingLevel::Info,
    {
        LoggingLevel::Info
    }
}

/// List of supported logging backends.
#[derive(Clone, Copy, PartialEq, Eq, Debug)]
pub enum LoggingBackend {
    /// Log objects to the systemd journal.
    Journald,
    /// Log JSON objects to standard output.
    Json,
}

impl Default for LoggingBackend {
    fn default() -> (r: LoggingBackend)
        ensures
            r == LoggingBackend::Json,
    {
        LoggingBackend::Json
    }
}

/// Logging configuration options.
#[derive(Clone, PartialEq, Eq, Debug)]
pub struct Config {
    /// Flush logs asynchronously.
    pub async_flush: bool,
    /// The backend to send logs to.
    pub backend: LoggingBackend,
    /// Include the version in every log record.
    pub include_version: bool,
    /// The minimum logging level.
    pub level: LoggingLevel,
    /// Advanced level configuration by module prefix: a record from a
    /// module that starts with a listed prefix is filtered by the mapped
    /// level instead of the default one.
    pub modules: Vec<(String, LoggingLevel)>,
    /// Enable verbose debug logs.
    pub verbose: bool,
}

impl Config {
    /// Logs are flushed asynchronously unless configured otherwise.
    pub fn default_async_flush() -> (r: bool)
        ensures
            r == true,
    {
        true
    }

    /// The version is not attached to records unless configured.
    pub fn default_include_version() -> (r: bool)
        ensures
            r == false,
    {
        false
    }

    /// Verbose mode is off unless configured.
    pub fn default_verbose() -> (r: bool)
        ensures
            r == false,
    {
        false
    }
}

impl Default for Config {
    fn default() -> (r: Config)
        ensures
            r.async_flush == true,
            r.backend == LoggingBackend::Json,
            r.include_version == false,
            r.level == LoggingLevel::Info,
            r.modules@.len() == 0,
            r.verbose == false,
    {
        Config {
            async_flush: Config::default_async_flush(),
            backend: LoggingBackend::default(),
            include_version: Config::default_include_version(),
            level: LoggingLevel::default(),
            modules: Vec::new(),
            verbose: Config::default_verbose(),
        }
    }
}

/// Additional program options given to the logging configuration.
#[derive(Clone, PartialEq, Eq, Debug)]
pub struct Opts {
    /// The version string to attach to logs.
    pub version: String,
}

impl Opts {
    pub fn new(version: String) -> (r: Opts)
        ensures
            r.version == version,
    {
        Opts { version }
    }
}

/// Lexicographic order on text, by character code point.
pub open spec fn lex_le(a: Seq<char>, b: Seq<char>) -> bool
    decreases a.len(),
{
    ||| a.len() == 0
    ||| (b.len() > 0 && (a[0] < b[0] || (a[0] == b[0] && lex_le(a.skip(1), b.skip(1)))))
}

/// Lexicographic order is reflexive.
pub(crate) proof fn lemma_lex_le_refl(a: Seq<char>)
    ensures
        lex_le(a, a),
    decreases a.len(),
{
    if a.len() > 0 {
        lemma_lex_le_refl(a.skip(1));
    }
}

/// Lexicographic order is total.
pub(crate) proof fn lemma_lex_le_total(a: Seq<char>, b: Seq<char>)
    ensures
        lex_le(a, b) || lex_le(b, a),
    decreases a.len(),
{
    if a.len() > 0 && b.len() > 0 && a[0] == b[0] {
        lemma_lex_le_total(a.skip(1), b.skip(1));
    }
}

/// Lexicographic order is transitive.
pub(crate) proof fn lemma_lex_le_trans(a: Seq<char>, b: Seq<char>, c: Seq<char>)
    requires
        lex_le(a, b),
        lex_le(b, c),
    ensures
        lex_le(a, c),
    decreases a.len(),
{
    if a.len() > 0 && a[0] == b[0] && b[0] == c[0] {
        lemma_lex_le_trans(a.skip(1), b.skip(1), c.skip(1));
    }
}

/// Two texts whose first `i` characters agree compare like their suffixes.
proof fn lemma_lex_le_skip(a: Seq<char>, b: Seq<char>, i: int)
    requires
        0 <= i <= a.len(),
        i <= b.len(),
        forall|j: int| 0 <= j < i ==> a[j] == b[j],
    ensures
        lex_le(a, b) == lex_le(a.skip(i), b.skip(i)),
    decreases i,
{
    if i == 0 {
        assert(a.skip(0) =~= a);
        assert(b.skip(0) =~= b);
    } else {
        assert forall|j: int| 0 <= j < i - 1 implies a.skip(1)[j] == b.skip(1)[j] by {
            assert(a[j + 1] == b[j + 1]);
        }
        lemma_lex_le_skip(a.skip(1), b.skip(1), i - 1);
        assert(a.skip(1).skip(i - 1) =~= a.skip(i));
        assert(b.skip(1).skip(i - 1) =~= b.skip(i));
    }
}

/// Whether `a` compares at or before `b` in lexicographic order.
pub(crate) fn str_le(a: &str, b: &str) -> (r: bool)
    ensures
        r == lex_le(a@, b@),
{
    let a_len: usize = a.unicode_len();
    let b_len: usize = b.unicode_len();
    let mut i: usize = 0;
    while i < a_len && i < b_len
        invariant
            i <= a_len,
            i <= b_len,
            a_len == a@.len(),
            b_len == b@.len(),
            forall|j: int| 0 <= j < i ==> a@[j] == b@[j],
        decreases a_len - i,
    {
        let ca = a.get_char(i);
        let cb = b.get_char(i);
        if ca != cb {
            proof {
                lemma_lex_le_skip(a@, b@, i as int);
                assert(a@.skip(i as int)[0] == ca);
                assert(b@.skip(i as int)[0] == cb);
            }
            return ca < cb;
        }
        i = i + 1;
    }
    proof {
        lemma_lex_le_skip(a@, b@, i as int);
    }
    a_len <= b_len
}

/// Whether `prefix` is a prefix of `s`.
fn str_starts_with(s: &str, prefix: &str) -> (r: bool)
    ensures
        r == prefix@.is_prefix_of(s@),
{
    let s_len: usize = s.unicode_len();
    let p_len: usize = prefix.unicode_len();
    if p_len > s_len {
        return false;
    }
    let mut i: usize = 0;
    while i < p_len
        invariant
            i <= p_len,
            p_len <= s_len,
            s_len == s@.len(),
            p_len == prefix@.len(),
            forall|j: int| 0 <= j < i ==> s@[j] == prefix@[j],
        decreases p_len - i,
    {
        if s.get_char(i) != prefix.get_char(i) {
            proof {
                assert(prefix@[i as int] != s@.subrange(0, p_len as int)[i as int]);
            }
            return false;
        }
        i = i + 1;
    }
    proof {
        assert(prefix@ =~= s@.subrange(0, p_len as int));
    }
    true
}

/// A module-prefix override of the minimum logging level.
#[derive(Clone, PartialEq, Eq, Debug)]
pub struct PrefixLevel {
    /// Module prefix the override applies to.
    pub prefix: String,
    /// Minimum level for records from modules under the prefix.
    pub level: LoggingLevel,
}

/// Overrides sorted by prefix, descending, so that the longest (most
/// specific) of two nested prefixes is met first.
pub open spec fn sorted_desc(overrides: Seq<PrefixLevel>) -> bool {
    forall|i: int, j: int|
        0 <= i <= j < overrides.len() ==> #[trigger] lex_le(
            overrides[j].prefix@,
            overrides[i].prefix@,
        )
}

/// The filtering decision: the level of the first override whose prefix
/// matches the record's module, or the default level, bounds the records
/// that are emitted.
pub open spec fn allow_spec(
    overrides: Seq<PrefixLevel>,
    default: LoggingLevel,
    module: Seq<char>,
    level: LoggingLevel,
) -> bool
    decreases overrides.len(),
{
    if overrides.len() == 0 {
        level_rank(level) >= level_rank(default)
    } else if overrides.first().prefix@.is_prefix_of(module) {
        level_rank(level) >= level_rank(overrides.first().level)
    } else {
        allow_spec(overrides.drop_first(), default, module, level)
    }
}

/// The decision over the whole list equals the decision over its tail
/// when no prefix among the first `i` overrides matches.
proof fn lemma_allow_spec_skip(
    overrides: Seq<PrefixLevel>,
    default: LoggingLevel,
    module: Seq<char>,
    level: LoggingLevel,
    i: int,
)
    requires
        0 <= i <= overrides.len(),
        forall|j: int| 0 <= j < i ==> !(#[trigger] overrides[j].prefix@).is_prefix_of(module),
    ensures
        allow_spec(overrides, default, module, level) == allow_spec(
            overrides.skip(i),
            default,
            module,
            level,
        ),
    decreases i,
{
    if i == 0 {
        assert(overrides.skip(0) =~= overrides);
    } else {
        assert forall|j: int|
            0 <= j < i - 1 implies !(#[trigger] overrides.drop_first()[j].prefix@).is_prefix_of(
            module,
        ) by {
            assert(overrides.drop_first()[j] == overrides[j + 1]);
        }
        lemma_allow_spec_skip(overrides.drop_first(), default, module, level, i - 1);
        assert(overrides.drop_first().skip(i - 1) =~= overrides.skip(i));
    }
}

/// Filter of log records by minimum level, with per-module overrides.
pub struct LevelFilter {
    default: LoggingLevel,
    overrides: Vec<PrefixLevel>,
}

impl LevelFilter {
    /// The default minimum level of this filter.
    pub closed spec fn spec_default(&self) -> LoggingLevel {
        self.default
    }

    /// The overrides of this filter, most specific prefix first.
    pub closed spec fn spec_overrides(&self) -> Seq<PrefixLevel> {
        self.overrides@
    }

    /// A filter that emits records at `default` or above, with no
    /// overrides yet.
    pub fn new(default: LoggingLevel) -> (r: LevelFilter)
        ensures
            r.spec_default() == default,
            r.spec_overrides() == Seq::<PrefixLevel>::empty(),
    {
        let r = LevelFilter { default, overrides: Vec::new() };
        proof {
            assert(r.spec_overrides() =~= Seq::<PrefixLevel>::empty());
        }
        r
    }

    /// Whether a record from `module` at `level` is emitted: the first
    /// override whose prefix matches the module decides; the default
    /// level decides when none matches.
    pub fn allow(&self, module: &str, level: LoggingLevel) -> (r: bool)
        ensures
            r == allow_spec(self.spec_overrides(), self.spec_default(), module@, level),
    {
        let n: usize = self.overrides.len();
        let mut i: usize = 0;
        while i < n
            invariant
                i <= n,
                n == self.overrides@.len(),
                forall|j: int|
                    0 <= j < i ==> !(#[trigger] self.overrides@[j].prefix@).is_prefix_of(module@),
            decreases n - i,
        {
            if str_starts_with(module, self.overrides[i].prefix.as_str()) {
                proof {
                    lemma_allow_spec_skip(
                        self.overrides@,
                        self.default,
                        module@,
                        level,
                        i as int,
                    );
                    assert(self.overrides@.skip(i as int).first() == self.overrides@[i as int]);
                }
                return level.is_at_least(self.overrides[i].level);
            }
            i = i + 1;
        }
        proof {
            lemma_allow_spec_skip(self.overrides@, self.default, module@, level, n as int);
            assert(self.overrides@.skip(n as int) =~= Seq::<PrefixLevel>::empty());
        }
        level.is_at_least(self.default)
    }

    /// The installed overrides, in the order they are consulted.
    pub fn overrides(&self) -> (r: &Vec<PrefixLevel>)
        ensures
            r@ == self.spec_overrides(),
    {
        &self.overrides
    }

    /// Install the given overrides, sorted by prefix in descending order
    /// so that the most specific of two nested prefixes is met first.
    /// Replaces any overrides installed before.
    pub fn modules(&mut self, prefixes: Vec<PrefixLevel>)
        ensures
            final(self).spec_default() == old(self).spec_default(),
            sorted_desc(final(self).spec_overrides()),
            final(self).spec_overrides().to_multiset() == prefixes@.to_multiset(),
    {
        self.overrides = sort_prefixes_desc(prefixes);
    }
}

/// Sort overrides by prefix, descending, by repeatedly extracting a
/// greatest remaining element.
fn sort_prefixes_desc(items: Vec<PrefixLevel>) -> (r: Vec<PrefixLevel>)
    ensures
        sorted_desc(r@),
        r@.to_multiset() == items@.to_multiset(),
{
    broadcast use vstd::seq_lib::group_to_multiset_ensures;

    let ghost orig = items@;
    let mut rest = items;
    let mut out: Vec<PrefixLevel> = Vec::new();
    proof {
        assert(out@.to_multiset().add(rest@.to_multiset()) =~= orig.to_multiset());
    }
    while rest.len() > 0
        invariant
            out@.to_multiset().add(rest@.to_multiset()) == orig.to_multiset(),
            sorted_desc(out@),
            forall|i: int, j: int|
                0 <= i < out@.len() && 0 <= j < rest@.len() ==> #[trigger] lex_le(
                    rest@[j].prefix@,
                    out@[i].prefix@,
                ),
        decreases rest@.len(),
    {
        let mut best: usize = 0;
        let mut k: usize = 1;
        proof {
            lemma_lex_le_refl(rest@[0].prefix@);
        }
        while k < rest.len()
            invariant
                rest@.len() > 0,
                (best as int) < rest@.len(),
                k <= rest@.len(),
                forall|j: int|
                    0 <= j < k ==> #[trigger] lex_le(rest@[j].prefix@, rest@[best as int].prefix@),
            decreases rest@.len() - k,
        {
            if str_le(rest[best].prefix.as_str(), rest[k].prefix.as_str()) {
                proof {
                    assert forall|j: int| 0 <= j < k + 1 implies #[trigger] lex_le(
                        rest@[j].prefix@,
                        rest@[k as int].prefix@,
                    ) by {
                        if j < k {
                            lemma_lex_le_trans(
                                rest@[j].prefix@,
                                rest@[best as int].prefix@,
                                rest@[k as int].prefix@,
                            );
                        } else {
                            lemma_lex_le_refl(rest@[k as int].prefix@);
                        }
                    }
                }
                best = k;
            } else {
                proof {
                    lemma_lex_le_total(rest@[best as int].prefix@, rest@[k as int].prefix@);
                    lemma_lex_le_refl(rest@[k as int].prefix@);
                }
            }
            k = k + 1;
        }
        let ghost rest_before = rest@;
        let item = rest.remove(best);
        let ghost picked = item;
        let ghost out_before = out@;
        out.push(item);
        proof {
            broadcast use vstd::seq_lib::group_to_multiset_ensures;

            // The two parts still add up, as multisets, to the input elements.
            assert((best as int) < rest_before.len());
            assert(rest_before[best as int] == picked);
            assert(rest_before.contains(picked));
            assert(rest_before.to_multiset().count(picked) > 0);
            assert(out@.to_multiset().add(rest@.to_multiset()) =~= orig.to_multiset());
            // Everything still unsorted is at or before the extracted
            // element, so the output stays sorted.
            assert forall|i: int, j: int|
                0 <= i < out@.len() && 0 <= j < rest@.len() implies #[trigger] lex_le(
                rest@[j].prefix@,
                out@[i].prefix@,
            ) by {
                let j_orig: int = if j < best as int {
                    j
                } else {
                    j + 1
                };
                assert(rest@[j] == rest_before[j_orig]);
                if i < out_before.len() {
                    assert(lex_le(rest_before[j_orig].prefix@, out_before[i].prefix@));
                } else {
                    assert(out@[i] == picked);
                    assert(lex_le(rest_before[j_orig].prefix@, picked.prefix@));
                }
            }
            assert forall|i: int, j: int| 0 <= i <= j < out@.len() implies #[trigger] lex_le(
                out@[j].prefix@,
                out@[i].prefix@,
            ) by {
                if j < out_before.len() {
                    assert(lex_le(out_before[j].prefix@, out_before[i].prefix@));
                } else if i < out_before.len() {
                    assert(out@[j] == picked);
                    assert(lex_le(picked.prefix@, out_before[i].prefix@));
                } else {
                    lemma_lex_le_refl(picked.prefix@);
                }
            }
        }
    }
    out
}

} // verus!
