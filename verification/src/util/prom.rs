//! Metrics in the text format of Prometheus.

use prometheus::{IntCounter, IntCounterVec, IntGauge, Opts};
use vstd::prelude::*;

verus! {

/// The samples of a registry by the name of the metric: whether it is a gauge, its help
/// text, the name of its label, and its values by label; the label is empty where there is
/// none.
pub type Samples = Map<Seq<char>, (bool, Seq<char>, Seq<char>, Seq<(Seq<char>, int)>)>;

/// A metric without labels.
pub open spec fn plain(gauge: bool, help: Seq<char>, value: int) -> (
    bool,
    Seq<char>,
    Seq<char>,
    Seq<(Seq<char>, int)>,
) {
    (gauge, help, Seq::empty(), seq![(Seq::empty(), value)])
}

/// A counter with two values of one label.
pub open spec fn pair(
    help: Seq<char>,
    label: Seq<char>,
    first: (Seq<char>, int),
    second: (Seq<char>, int),
) -> (bool, Seq<char>, Seq<char>, Seq<(Seq<char>, int)>) {
    (false, help, label, children(first.0, first.1, second.0, second.1))
}

/// A letter of ASCII or an underscore.
pub open spec fn opens_name(c: char) -> bool {
    'a' <= c <= 'z' || 'A' <= c <= 'Z' || c == '_'
}

/// Whether the text from position `i` on holds nothing but letters, underscores and digits
/// of ASCII, and colons where they are allowed.
pub open spec fn goes_on_from(s: Seq<char>, colons: bool, i: int) -> bool
    decreases s.len() - i,
{
    i >= s.len() || ((opens_name(s[i]) || '0' <= s[i] <= '9' || (colons && s[i] == ':'))
        && goes_on_from(s, colons, i + 1))
}

/// Whether a text is an identifier: it is not empty, does not begin with a digit, and holds
/// nothing but letters, underscores and digits of ASCII, and colons where they are allowed.
pub open spec fn identifier(s: Seq<char>, colons: bool) -> bool {
    s.len() > 0 && (opens_name(s[0]) || (colons && s[0] == ':')) && goes_on_from(s, colons, 0)
}

/// Whether a metric is in order: it has a help text, its name is an identifier in which
/// colons are allowed, and its label, if it has one, is an identifier without colons.
pub open spec fn in_order(name: Seq<char>, help: Seq<char>, label: Seq<char>) -> bool {
    help.len() > 0 && identifier(name, true) && (label.len() == 0 || identifier(label, false))
}

/// One metric as a text.
pub open spec fn part(
    name: Seq<char>,
    metric: (bool, Seq<char>, Seq<char>, Seq<(Seq<char>, int)>),
) -> Seq<char> {
    exposition(Samples::empty().insert(name, metric))
}

/// What is shown after one more metric; nothing once one was not in order.
pub open spec fn show(
    shown: Option<Seq<char>>,
    name: Seq<char>,
    metric: (bool, Seq<char>, Seq<char>, Seq<(Seq<char>, int)>),
) -> Option<Seq<char>> {
    match shown {
        None => None,
        Some(s) => if in_order(name, metric.1, metric.2) {
            Some(s + part(name, metric))
        } else {
            None
        },
    }
}

/// A registry of metrics.
#[verifier::external_type_specification]
#[verifier::external_body]
pub struct ExRegistry(prometheus::Registry);

/// Why a metric could not be registered or shown.
#[verifier::external_type_specification]
#[verifier::external_body]
pub struct ExPrometheusError(prometheus::Error);

/// The samples that a registry shows.
pub uninterp spec fn samples(
    registry: prometheus::Registry,
) -> Map<Seq<char>, (bool, Seq<char>, Seq<char>, Seq<(Seq<char>, int)>)>;

/// What a counter with one label shows once `n` was counted for `first` and then `m` for
/// `second`: a value for each of the two. It is not stated because `prometheus` tells label
/// values apart by a hash of 64 bits, and two that share a hash share a value.
pub uninterp spec fn children(
    first: Seq<char>,
    n: int,
    second: Seq<char>,
    m: int,
) -> Seq<(Seq<char>, int)>;

/// Samples in the text format: sorted by name, each with its help text and its type.
pub uninterp spec fn exposition(
    samples: Map<Seq<char>, (bool, Seq<char>, Seq<char>, Seq<(Seq<char>, int)>)>,
) -> Seq<char>;

/// `Registry::new`: a registry that shows nothing.
#[verifier::external_body]
pub(crate) fn new_registry() -> (r: prometheus::Registry)
    ensures
        samples(r) == Samples::empty(),
{
    prometheus::Registry::new()
}

/// `IntCounter::new`, `IntCounter::inc_by` and `Registry::register`: puts a counter that
/// stands at `value` into an empty registry, where it is in order. Nothing is claimed of a
/// registry that shows something: it tells names apart by a hash of 64 bits.
#[verifier::external_body]
pub(crate) fn add_counter(registry: &mut prometheus::Registry, name: &str, help: &str, value: u64) -> (r:
    Result<(), prometheus::Error>)
    requires
        samples(*old(registry)) == Samples::empty(),
    ensures
        r is Ok == in_order(name@, help@, Seq::empty()),
        samples(*final(registry)) == (if r is Ok {
            Samples::empty().insert(name@, plain(false, help@, value as int))
        } else {
            Samples::empty()
        }),
{
    let counter = IntCounter::new(name, help)?;
    counter.inc_by(value);
    registry.register(Box::new(counter))
}

/// `IntGauge::new`, `IntGauge::set` and `Registry::register`: puts a gauge that stands at
/// `value` into an empty registry, where it is in order.
#[verifier::external_body]
pub(crate) fn add_gauge(registry: &mut prometheus::Registry, name: &str, help: &str, value: i64) -> (r: Result<
    (),
    prometheus::Error,
>)
    requires
        samples(*old(registry)) == Samples::empty(),
    ensures
        r is Ok == in_order(name@, help@, Seq::empty()),
        samples(*final(registry)) == (if r is Ok {
            Samples::empty().insert(name@, plain(true, help@, value as int))
        } else {
            Samples::empty()
        }),
{
    let gauge = IntGauge::new(name, help)?;
    gauge.set(value);
    registry.register(Box::new(gauge))
}

/// `IntCounterVec::new`, `with_label_values`, `inc_by` and `Registry::register`: puts a
/// counter with two values of one label into an empty registry, where it is in order. Which
/// values it then shows is named by `children`.
#[verifier::external_body]
pub(crate) fn add_counter_pair(
    registry: &mut prometheus::Registry,
    name: &str,
    help: &str,
    label: &str,
    first: (&str, u64),
    second: (&str, u64),
) -> (r: Result<(), prometheus::Error>)
    requires
        samples(*old(registry)) == Samples::empty(),
        label@.len() > 0,
    ensures
        r is Ok == in_order(name@, help@, label@),
        samples(*final(registry)) == (if r is Ok {
            Samples::empty().insert(
                name@,
                (
                    false,
                    help@,
                    label@,
                    children(first.0@, first.1 as int, second.0@, second.1 as int),
                ),
            )
        } else {
            Samples::empty()
        }),
{
    let counters = IntCounterVec::new(Opts::new(name, help), &[label])?;
    counters.with_label_values(&[first.0]).inc_by(first.1);
    counters.with_label_values(&[second.0]).inc_by(second.1);
    registry.register(Box::new(counters))
}

/// `Registry::gather` and `TextEncoder::encode_to_string`: the samples as a text, unless one
/// has no name.
#[verifier::external_body]
pub(crate) fn gather_text(registry: &prometheus::Registry) -> (r: Result<String, prometheus::Error>)
    ensures
        r is Ok == !samples(*registry).contains_key(Seq::empty()),
        r matches Ok(s) ==> s@ == exposition(samples(*registry)),
{
    prometheus::TextEncoder::new().encode_to_string(&registry.gather())
}

/// The `Display` form of an error of `prometheus`. Nothing is claimed of it: the error is
/// opaque here.
#[verifier::external_body]
fn shown(e: prometheus::Error) -> (r: String) {
    format!("{}", e)
}

/// Why metrics could not be shown.
#[derive(Debug)]
pub struct MetricsError {
    /// The failure, as it is shown.
    pub message: String,
}

impl MetricsError {
    /// The failure of a registry.
    pub fn new(e: prometheus::Error) -> (r: Self) {
        MetricsError { message: shown(e) }
    }
}

/// Builds up a text of metrics, one after the other, until one is not in order. Each metric
/// goes through a registry of its own.
pub struct Exposition {
    text: String,
    failed: Option<MetricsError>,
}

impl Exposition {
    /// What is shown so far, where every metric was in order.
    pub closed spec fn shows(&self) -> Option<Seq<char>> {
        match self.failed {
            None => Some(self.text@),
            Some(_) => None,
        }
    }

    /// Shows nothing.
    pub fn new() -> (r: Self)
        ensures
            r.shows() == Some(Seq::<char>::empty()),
    {
        Exposition { text: String::new(), failed: None }
    }

    /// Adds what a registry shows, or notes why it shows nothing.
    fn take(&mut self, registry: &prometheus::Registry, added: Result<(), prometheus::Error>)
        requires
            old(self).failed is None,
            !samples(*registry).contains_key(Seq::empty()),
        ensures
            final(self).shows() == (match added {
                Ok(()) => Some(old(self).text@ + exposition(samples(*registry))),
                Err(_) => None,
            }),
    {
        match added {
            Ok(()) => match gather_text(registry) {
                Ok(t) => {
                    self.text.append(t.as_str());
                },
                Err(e) => {
                    self.failed = Some(MetricsError::new(e));
                },
            },
            Err(e) => {
                self.failed = Some(MetricsError::new(e));
            },
        }
    }

    /// Adds a counter.
    pub fn counter(&mut self, name: &str, help: &str, value: u64)
        ensures
            final(self).shows() == show(
                old(self).shows(),
                name@,
                plain(false, help@, value as int),
            ),
    {
        if self.failed.is_none() {
            let mut registry = new_registry();
            let added = add_counter(&mut registry, name, help, value);
            self.take(&registry, added);
        }
    }

    /// Adds a gauge.
    pub fn gauge(&mut self, name: &str, help: &str, value: i64)
        ensures
            final(self).shows() == show(
                old(self).shows(),
                name@,
                plain(true, help@, value as int),
            ),
    {
        if self.failed.is_none() {
            let mut registry = new_registry();
            let added = add_gauge(&mut registry, name, help, value);
            self.take(&registry, added);
        }
    }

    /// Adds a counter with two values of one label.
    pub fn counter_pair(
        &mut self,
        name: &str,
        help: &str,
        label: &str,
        first: (&str, u64),
        second: (&str, u64),
    )
        requires
            label@.len() > 0,
        ensures
            final(self).shows() == show(
                old(self).shows(),
                name@,
                pair(
                    help@,
                    label@,
                    (first.0@, first.1 as int),
                    (second.0@, second.1 as int),
                ),
            ),
    {
        if self.failed.is_none() {
            let mut registry = new_registry();
            let added = add_counter_pair(&mut registry, name, help, label, first, second);
            self.take(&registry, added);
        }
    }

    /// The text of what is shown; none where a metric was not in order.
    pub fn text(self) -> (r: Result<String, MetricsError>)
        ensures
            r is Ok == self.shows() is Some,
            r matches Ok(t) ==> self.shows() == Some(t@),
    {
        match self.failed {
            Some(e) => Err(e),
            None => Ok(self.text),
        }
    }
}

/// A counter after `n` more; it starts over where a number of 64 bits cannot hold it.
pub open spec fn counted(x: u64, n: u64) -> u64 {
    if x + n > u64::MAX {
        (x + n - 0x1_0000_0000_0000_0000) as u64
    } else {
        (x + n) as u64
    }
}

/// A counter after `n` more; it starts over where a number of 64 bits cannot hold it.
pub fn count(x: u64, n: u64) -> (r: u64)
    ensures
        r == counted(x, n),
{
    x.wrapping_add(n)
}

/// A gauge after a change; it goes round where a number of 64 bits cannot hold it.
pub open spec fn moved(x: i64, by: int) -> i64 {
    if x + by > i64::MAX {
        (x + by - 0x1_0000_0000_0000_0000) as i64
    } else if x + by < i64::MIN {
        (x + by + 0x1_0000_0000_0000_0000) as i64
    } else {
        (x + by) as i64
    }
}

/// A gauge after `n` more, counted as the largest number of a gauge where it is larger.
pub fn raise(x: i64, n: u64) -> (r: i64)
    ensures
        r == moved(x, clamped(n as nat) as int),
{
    x.wrapping_add(clamp(n))
}

/// A gauge after `n` less, counted as the largest number of a gauge where it is larger.
pub fn lower(x: i64, n: u64) -> (r: i64)
    ensures
        r == moved(x, -(clamped(n as nat) as int)),
{
    x.wrapping_sub(clamp(n))
}

/// The largest number of a gauge that does not exceed `n`.
pub open spec fn clamped(n: nat) -> i64 {
    if n <= i64::MAX {
        n as i64
    } else {
        i64::MAX
    }
}

/// The largest number of a gauge that does not exceed `n`.
pub fn clamp(n: u64) -> (r: i64)
    ensures
        r == clamped(n as nat),
{
    if n <= i64::MAX as u64 {
        n as i64
    } else {
        i64::MAX
    }
}

/// Counters and gauges count exactly, as long as a number of 64 bits can hold the result, and
/// go on around its ends otherwise.
pub proof fn law_counting_is_exact(x: u64, n: u64, y: i64, by: int)
    requires
        i64::MIN <= by <= i64::MAX,
    ensures
        x + n <= u64::MAX ==> counted(x, n) == x + n,
        x + n > u64::MAX ==> counted(x, n) + 0x1_0000_0000_0000_0000 == x + n,
        i64::MIN <= y + by <= i64::MAX ==> moved(y, by) == y + by,
        n <= i64::MAX ==> clamped(n as nat) == n,
        n > i64::MAX ==> clamped(n as nat) == i64::MAX,
{
}

/// Whether a text shows a metric somewhere.
pub open spec fn shows_part(
    text: Seq<char>,
    name: Seq<char>,
    metric: (bool, Seq<char>, Seq<char>, Seq<(Seq<char>, int)>),
) -> bool {
    exists|a: Seq<char>, b: Seq<char>| text == #[trigger] (a + part(name, metric) + b)
}

/// A metric that is added last is shown.
pub proof fn lemma_shows_last(
    front: Seq<char>,
    name: Seq<char>,
    metric: (bool, Seq<char>, Seq<char>, Seq<(Seq<char>, int)>),
)
    ensures
        shows_part(front + part(name, metric), name, metric),
{
    let none = Seq::<char>::empty();
    assert(front + part(name, metric) + none =~= front + part(name, metric));
}

/// A metric that is shown is still shown when more is added.
pub proof fn lemma_shows_on(
    text: Seq<char>,
    more: Seq<char>,
    name: Seq<char>,
    metric: (bool, Seq<char>, Seq<char>, Seq<(Seq<char>, int)>),
)
    requires
        shows_part(text, name, metric),
    ensures
        shows_part(text + more, name, metric),
{
    let (a, b) = choose|a: Seq<char>, b: Seq<char>| text == #[trigger] (a + part(name, metric) + b);
    assert(text + more =~= a + part(name, metric) + (b + more));
}

/// A metric is accepted exactly with a help text, a name and, if any, a label that are in
/// order: a name begins with a letter, an underscore or a colon and goes on with these and
/// digits, and a label is such a name without colons.
pub proof fn law_names_in_order(s: Seq<char>, colons: bool)
    ensures
        identifier(s, colons) <==> s.len() > 0 && !('0' <= s[0] <= '9') && forall|i: int|
            0 <= i < s.len() ==> ('a' <= #[trigger] s[i] <= 'z' || 'A' <= s[i] <= 'Z' || s[i] == '_'
                || '0' <= s[i] <= '9' || (colons && s[i] == ':')),
{
    lemma_goes_on(s, colons, 0);
    if s.len() > 0 {
        assert(s[0] == s[0]);
    }
}

proof fn lemma_goes_on(s: Seq<char>, colons: bool, i: int)
    requires
        0 <= i,
    ensures
        goes_on_from(s, colons, i) <==> forall|j: int|
            i <= j < s.len() ==> ('a' <= #[trigger] s[j] <= 'z' || 'A' <= s[j] <= 'Z' || s[j] == '_'
                || '0' <= s[j] <= '9' || (colons && s[j] == ':')),
    decreases s.len() - i,
{
    if i < s.len() {
        lemma_goes_on(s, colons, i + 1);
    }
}

/// A metric that is in order is added behind the others; one that is not spoils the text for
/// good.
pub proof fn law_metrics_are_appended(
    shown: Option<Seq<char>>,
    name: Seq<char>,
    metric: (bool, Seq<char>, Seq<char>, Seq<(Seq<char>, int)>),
)
    ensures
        show(shown, name, metric) is Some <==> shown is Some && in_order(name, metric.1, metric.2),
        show(shown, name, metric) matches Some(t) ==> t == shown->0 + part(name, metric),
        in_order(name, metric.1, metric.2) <==> metric.1.len() > 0 && identifier(name, true) && (
        metric.2.len() > 0 ==> identifier(metric.2, false)),
{
}

/// A metric without a label has one value, and tells a gauge from a counter.
pub proof fn law_plain_metric(gauge: bool, help: Seq<char>, value: int)
    ensures
        plain(gauge, help, value).0 == gauge,
        plain(gauge, help, value).1 == help,
        plain(gauge, help, value).2.len() == 0,
        plain(gauge, help, value).3.len() == 1,
        plain(gauge, help, value).3[0].1 == value,
{
}

/// A gauge that goes beyond an end of its range comes in at the other one.
pub proof fn law_gauges_go_round(x: i64, by: int)
    requires
        i64::MIN <= by <= i64::MAX,
    ensures
        x + by > i64::MAX ==> moved(x, by) + 0x1_0000_0000_0000_0000 == x + by,
        x + by < i64::MIN ==> moved(x, by) - 0x1_0000_0000_0000_0000 == x + by,
{
}

} // verus!
