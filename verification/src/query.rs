use vstd::prelude::*;
use crate::duration::{Duration, dur_leq, parse_spec, sort_durations, parse_duration,
    render_durations};
use crate::error::BuilderError;
use crate::timespec::{time_canon, parse_time_specifier};

verus! {

/// One label-matching clause of a vector selector: a (name, value) pair
/// under one of the four comparison kinds.
#[derive(Clone, Copy, Debug)]
pub enum Label<'c> {
    /// The label's value must equal the string (`=`).
    With((&'c str, &'c str)),
    /// The label's value must not equal the string (`!=`).
    Without((&'c str, &'c str)),
    /// The label's value must regex-match the string (`=~`).
    Matches((&'c str, &'c str)),
    /// The label's value must not regex-match the string (`!~`).
    Clashes((&'c str, &'c str)),
}

/// A label matcher as a plain value: the comparison kind's tag (0 `=`,
/// 1 `!=`, 2 `=~`, 3 `!~`) with the name and value character sequences.
pub open spec fn label_view(l: Label) -> (int, Seq<char>, Seq<char>) {
    match l {
        Label::With(p) => (0, p.0@, p.1@),
        Label::Without(p) => (1, p.0@, p.1@),
        Label::Matches(p) => (2, p.0@, p.1@),
        Label::Clashes(p) => (3, p.0@, p.1@),
    }
}

/// The matcher operator's characters for a comparison kind's tag.
pub open spec fn op_chars(tag: int) -> Seq<char> {
    if tag == 0 {
        seq!['=']
    } else if tag == 1 {
        seq!['!', '=']
    } else if tag == 2 {
        seq!['=', '~']
    } else {
        seq!['!', '~']
    }
}

/// The rendering of one matcher: `name<op>"value"`.
pub open spec fn render_label(l: (int, Seq<char>, Seq<char>)) -> Seq<char> {
    l.1 + op_chars(l.0) + seq!['"'] + l.2 + seq!['"']
}

/// The rendering of a matcher sequence: the matchers in order, joined
/// with commas.
pub open spec fn render_labels(s: Seq<(int, Seq<char>, Seq<char>)>) -> Seq<char>
    decreases s.len(),
{
    if s.len() == 0 {
        Seq::empty()
    } else if s.len() == 1 {
        render_label(s[0])
    } else {
        render_label(s[0]) + seq![','] + render_labels(s.drop_first())
    }
}

/// Insertion order is what serialization preserves: appending a matcher
/// appends its rendering (after a comma, when others precede it) and leaves
/// the rendering of the earlier matchers as their prefix, unchanged.
pub proof fn lemma_render_labels_push(s: Seq<(int, Seq<char>, Seq<char>)>, l: (int, Seq<char>, Seq<char>))
    ensures
        s.len() == 0 ==> render_labels(s.push(l)) == render_label(l),
        s.len() > 0 ==> render_labels(s.push(l)) == render_labels(s) + seq![','] + render_label(
            l,
        ),
    decreases s.len(),
{
    if s.len() == 0 {
        assert(s.push(l) =~= seq![l]);
        assert(render_labels(seq![l]) == render_label(l));
    } else if s.len() == 1 {
        let sl = s.push(l);
        assert(sl.drop_first() =~= seq![l]);
        assert(seq![l][0] == l);
        assert(render_labels(seq![l]) == render_label(l));
        assert(sl[0] == s[0]);
        assert(render_labels(sl) == render_label(sl[0]) + seq![','] + render_labels(
            sl.drop_first(),
        ));
        assert(render_labels(s) == render_label(s[0]));
    } else {
        lemma_render_labels_push(s.drop_first(), l);
        assert(s.push(l).drop_first() =~= s.drop_first().push(l));
        assert(render_labels(s.push(l)) == render_label(s[0]) + seq![','] + render_labels(
            s.drop_first().push(l),
        ));
        assert(render_label(s[0]) + seq![','] + (render_labels(s.drop_first()) + seq![',']
            + render_label(l)) =~= (render_label(s[0]) + seq![','] + render_labels(
            s.drop_first(),
        )) + seq![','] + render_label(l));
    }
}

/// The matcher sequence a vector of labels stands for.
pub open spec fn labels_view(v: Seq<Label>) -> Seq<(int, Seq<char>, Seq<char>)> {
    v.map(|i: int, l: Label| label_view(l))
}

fn render_one_label(l: &Label) -> (s: String)
    ensures
        s@ == render_label(label_view(*l)),
{
    proof {
        reveal_strlit("=\"");
        reveal_strlit("!=\"");
        reveal_strlit("=~\"");
        reveal_strlit("!~\"");
        reveal_strlit("\"");
    }
    let (name, op, value): (&str, &str, &str) = match l {
        Label::With(p) => (p.0, "=\"", p.1),
        Label::Without(p) => (p.0, "!=\"", p.1),
        Label::Matches(p) => (p.0, "=~\"", p.1),
        Label::Clashes(p) => (p.0, "!~\"", p.1),
    };
    let mut s = name.to_owned();
    s.append(op);
    s.append(value);
    s.append("\"");
    proof {
        let lv = label_view(*l);
        assert(op@ =~= op_chars(lv.0) + seq!['"']);
        assert(((lv.1 + (op_chars(lv.0) + seq!['"'])) + lv.2) + seq!['"'] =~= render_label(lv));
    }
    s
}

fn render_labels_exec(v: &Vec<Label>) -> (s: String)
    ensures
        s@ == render_labels(labels_view(v@)),
{
    proof {
        reveal_strlit(",");
    }
    let mut s = String::new();
    let mut i: usize = 0;
    while i < v.len()
        invariant
            0 <= i <= v@.len(),
            s@ == render_labels(labels_view(v@).subrange(0, i as int)),
        decreases v.len() - i,
    {
        if i > 0 {
            s.append(",");
        }
        let piece = render_one_label(&v[i]);
        s.append(piece.as_str());
        proof {
            reveal_strlit(",");
            let lv = labels_view(v@);
            let pre = lv.subrange(0, i as int);
            assert(lv.subrange(0, i + 1) =~= pre.push(lv[i as int]));
            assert(lv[i as int] == label_view(v@[i as int]));
            lemma_render_labels_push(pre, lv[i as int]);
            if i == 0 {
                assert(s@ =~= render_labels(pre.push(lv[i as int])));
            } else {
                assert(s@ =~= render_labels(pre) + seq![','] + render_label(lv[i as int]));
            }
        }
        i = i + 1;
    }
    proof {
        assert(labels_view(v@).subrange(0, v@.len() as int) =~= labels_view(v@));
    }
    s
}

/// Compares two strings by their character sequences.
fn str_eq(a: &str, b: &str) -> (r: bool)
    ensures
        r == (a@ == b@),
{
    let n = a.unicode_len();
    if n != b.unicode_len() {
        return false;
    }
    let mut i: usize = 0;
    while i < n
        invariant
            0 <= i <= n,
            n == a@.len(),
            n == b@.len(),
            forall|k: int| 0 <= k < i ==> a@[k] == b@[k],
        decreases n - i,
    {
        if a.get_char(i) != b.get_char(i) {
            return false;
        }
        i = i + 1;
    }
    proof {
        assert(a@ =~= b@);
    }
    true
}

/// Whether a metric name collides with a reserved keyword of the query
/// language. The reserved set is fixed and closed.
pub open spec fn is_reserved(m: Seq<char>) -> bool {
    m == "bool"@ || m == "on"@ || m == "ignoring"@ || m == "group_left"@ || m == "group_right"@
}

/// The vector-selector string a metric name and a matcher sequence stand
/// for: `metric{matchers}`, either part omitted when absent.
pub open spec fn selector_spec(
    metric: Option<Seq<char>>,
    labels: Option<Seq<(int, Seq<char>, Seq<char>)>>,
) -> Seq<char> {
    match (metric, labels) {
        (Some(m), Some(l)) => m + seq!['{'] + render_labels(l) + seq!['}'],
        (Some(m), None) => m,
        (None, Some(l)) => seq!['{'] + render_labels(l) + seq!['}'],
        (None, None) => Seq::empty(),
    }
}

/// An already-validated instant query: the final query-language string and
/// its optional canonical time and timeout parameters. Once constructed,
/// this is exactly what will be sent on the wire.
#[derive(Debug)]
pub struct InstantQuery {
    pub query: String,
    pub time: Option<String>,
    pub timeout: Option<String>,
}

/// An already-validated range query over a time interval, constructed
/// directly from caller-supplied strings.
pub struct RangeQuery<'a> {
    pub query: &'a str,
    pub start: &'a str,
    pub end: &'a str,
    pub step: &'a str,
    pub timeout: Option<&'a str>,
}

/// The URL query parameters an instant query sends: always `query`, then
/// `time` and `timeout` where set.
pub open spec fn instant_params(q: InstantQuery) -> Seq<(Seq<char>, Seq<char>)> {
    let s0 = seq![("query"@, q.query@)];
    let s1 = match q.time {
        Some(t) => s0.push(("time"@, t@)),
        None => s0,
    };
    match q.timeout {
        Some(t) => s1.push(("timeout"@, t@)),
        None => s1,
    }
}

/// The URL query parameters a range query sends: always `query`, `start`,
/// `end`, `step`, then `timeout` where set.
pub open spec fn range_params(q: RangeQuery) -> Seq<(Seq<char>, Seq<char>)> {
    let s0 = seq![
        ("query"@, q.query@),
        ("start"@, q.start@),
        ("end"@, q.end@),
        ("step"@, q.step@),
    ];
    match q.timeout {
        Some(t) => s0.push(("timeout"@, t@)),
        None => s0,
    }
}

/// The pairs a parameter vector stands for.
pub open spec fn params_view(v: Seq<(&str, &str)>) -> Seq<(Seq<char>, Seq<char>)> {
    v.map(|i: int, p: (&str, &str)| (p.0@, p.1@))
}

impl InstantQuery {
    /// The parameter set of this query, exactly as sent on the wire.
    pub fn get_query_params<'s>(&'s self) -> (r: Vec<(&'s str, &'s str)>)
        ensures
            params_view(r@) == instant_params(*self),
    {
        let mut params: Vec<(&'s str, &'s str)> = Vec::new();
        params.push(("query", self.query.as_str()));
        if let Some(t) = &self.time {
            params.push(("time", t.as_str()));
        }
        if let Some(t) = &self.timeout {
            params.push(("timeout", t.as_str()));
        }
        proof {
            assert(params_view(params@) =~= instant_params(*self));
        }
        params
    }

    /// The fixed endpoint path of an instant query.
    pub fn get_query_endpoint(&self) -> (r: &str)
        ensures
            r@ == "/query"@,
    {
        "/query"
    }

    /// A fresh builder with nothing set.
    pub fn builder() -> (r: InstantQueryBuilder<'static>)
        ensures
            r.spec_metric() is None,
            r.spec_labels() is None,
            r.spec_time() is None,
            r.spec_timeout() is None,
    {
        InstantQueryBuilder {
            metric: None,
            labels: None,
            time: None,
            timeout: None,
        }
    }
}

impl<'a> RangeQuery<'a> {
    /// The parameter set of this query, exactly as sent on the wire.
    pub fn get_query_params<'s>(&'s self) -> (r: Vec<(&'s str, &'s str)>)
        ensures
            params_view(r@) == range_params(*self),
    {
        let mut params: Vec<(&'s str, &'s str)> = Vec::new();
        params.push(("query", self.query));
        params.push(("start", self.start));
        params.push(("end", self.end));
        params.push(("step", self.step));
        if let Some(t) = &self.timeout {
            params.push(("timeout", t));
        }
        proof {
            assert(params_view(params@) =~= range_params(*self));
        }
        params
    }

    /// The fixed endpoint path of a range query.
    pub fn get_query_endpoint(&self) -> (r: &str)
        ensures
            r@ == "/query_range"@,
    {
        "/query_range"
    }
}

/// Accumulates the typed fragments of an instant query: metric name, label
/// matchers, canonical time specifier and parsed timeout. Each fluent step
/// either validates and returns the updated builder or signals the step's
/// error; `build` performs the final cross-field validation.
#[derive(Debug)]
pub struct InstantQueryBuilder<'b> {
    metric: Option<&'b str>,
    labels: Option<Vec<Label<'b>>>,
    time: Option<String>,
    timeout: Option<Vec<Duration>>,
}

impl<'b> InstantQueryBuilder<'b> {
    /// The metric name held, as characters.
    pub closed spec fn spec_metric(&self) -> Option<Seq<char>> {
        match self.metric {
            Some(m) => Some(m@),
            None => None,
        }
    }

    /// The matcher sequence held; `None` when no matcher operation has run
    /// yet (which serializes without `{}`, unlike an empty sequence).
    pub closed spec fn spec_labels(&self) -> Option<Seq<(int, Seq<char>, Seq<char>)>> {
        match self.labels {
            Some(v) => Some(labels_view(v@)),
            None => None,
        }
    }

    /// The canonical time specifier held.
    pub closed spec fn spec_time(&self) -> Option<Seq<char>> {
        match self.time {
            Some(t) => Some(t@),
            None => None,
        }
    }

    /// The parsed, rank-sorted timeout tokens held.
    pub closed spec fn spec_timeout(&self) -> Option<Seq<Duration>> {
        match self.timeout {
            Some(v) => Some(v@),
            None => None,
        }
    }

    /// Sets the metric name of the time series selector. Fails exactly on
    /// the reserved keywords of the query language; any other string —
    /// including the empty one — is stored verbatim, with no
    /// normalization.
    pub fn metric(self, metric: &'b str) -> (r: Result<Self, BuilderError>)
        ensures
            match r {
                Ok(b) => !is_reserved(metric@) && b.spec_metric() == Some(metric@)
                    && b.spec_labels() == self.spec_labels() && b.spec_time() == self.spec_time()
                    && b.spec_timeout() == self.spec_timeout(),
                Err(e) => is_reserved(metric@) && e == BuilderError::InvalidMetricName,
            },
    {
        if str_eq(metric, "bool") || str_eq(metric, "on") || str_eq(metric, "ignoring") || str_eq(
            metric,
            "group_left",
        ) || str_eq(metric, "group_right") {
            Err(BuilderError::InvalidMetricName)
        } else {
            let mut this = self;
            this.metric = Some(metric);
            Ok(this)
        }
    }

    /// Appends an equality matcher (`label="value"`). Matcher operations
    /// are infallible, chainable, and preserve insertion order; the same
    /// label name may appear any number of times.
    pub fn with_label(self, label: &'b str, value: &'b str) -> (r: Self)
        ensures
            r.spec_metric() == self.spec_metric(),
            r.spec_time() == self.spec_time(),
            r.spec_timeout() == self.spec_timeout(),
            r.spec_labels() == Some(
                match self.spec_labels() {
                    Some(s) => s.push((0int, label@, value@)),
                    None => seq![(0int, label@, value@)],
                },
            ),
    {
        let mut this = self;
        this.push_label(Label::With((label, value)));
        this
    }

    /// Appends an inequality matcher (`label!="value"`); otherwise as
    /// `with_label`.
    pub fn without_label(self, label: &'b str, value: &'b str) -> (r: Self)
        ensures
            r.spec_metric() == self.spec_metric(),
            r.spec_time() == self.spec_time(),
            r.spec_timeout() == self.spec_timeout(),
            r.spec_labels() == Some(
                match self.spec_labels() {
                    Some(s) => s.push((1int, label@, value@)),
                    None => seq![(1int, label@, value@)],
                },
            ),
    {
        let mut this = self;
        this.push_label(Label::Without((label, value)));
        this
    }

    /// Appends a regex matcher (`label=~"value"`); the value's regex
    /// syntax is not validated here. Otherwise as `with_label`.
    pub fn match_label(self, label: &'b str, value: &'b str) -> (r: Self)
        ensures
            r.spec_metric() == self.spec_metric(),
            r.spec_time() == self.spec_time(),
            r.spec_timeout() == self.spec_timeout(),
            r.spec_labels() == Some(
                match self.spec_labels() {
                    Some(s) => s.push((2int, label@, value@)),
                    None => seq![(2int, label@, value@)],
                },
            ),
    {
        let mut this = self;
        this.push_label(Label::Matches((label, value)));
        this
    }

    /// Appends a regex non-matcher (`label!~"value"`) — except that, as a
    /// documented quirk kept for compatibility, when no matcher sequence
    /// exists yet this operation seeds it with a regex matcher (`=~`)
    /// instead.
    pub fn no_match_label(self, label: &'b str, value: &'b str) -> (r: Self)
        ensures
            r.spec_metric() == self.spec_metric(),
            r.spec_time() == self.spec_time(),
            r.spec_timeout() == self.spec_timeout(),
            r.spec_labels() == Some(
                match self.spec_labels() {
                    Some(s) => s.push((3int, label@, value@)),
                    None => seq![(2int, label@, value@)],
                },
            ),
    {
        let mut this = self;
        match this.labels {
            Some(_) => this.push_label(Label::Clashes((label, value))),
            None => this.push_label(Label::Matches((label, value))),
        }
        this
    }

    fn push_label(&mut self, l: Label<'b>)
        ensures
            final(self).spec_metric() == old(self).spec_metric(),
            final(self).spec_time() == old(self).spec_time(),
            final(self).spec_timeout() == old(self).spec_timeout(),
            final(self).spec_labels() == Some(
                match old(self).spec_labels() {
                    Some(s) => s.push(label_view(l)),
                    None => seq![label_view(l)],
                },
            ),
    {
        let ghost labels0 = self.spec_labels();
        let mut v: Vec<Label<'b>> = match self.labels.take() {
            Some(v) => v,
            None => Vec::new(),
        };
        let ghost v0 = v@;
        v.push(l);
        proof {
            assert(labels_view(v@) =~= labels_view(v0).push(label_view(l)));
            if labels0 is None {
                assert(labels_view(v0).push(label_view(l)) =~= seq![label_view(l)]);
            }
        }
        self.labels = Some(v);
    }

    /// Sets the evaluation time from either a numeric seconds-since-epoch
    /// string or an RFC 3339 date-time string, storing the canonical form;
    /// fails exactly when the string is neither.
    pub fn at(self, time: &'b str) -> (r: Result<Self, BuilderError>)
        ensures
            match r {
                Ok(b) => time_canon(time@) is Some && b.spec_time() == time_canon(time@)
                    && b.spec_metric() == self.spec_metric() && b.spec_labels()
                    == self.spec_labels() && b.spec_timeout() == self.spec_timeout(),
                Err(e) => time_canon(time@) is None && e == BuilderError::InvalidTimeSpecifier,
            },
    {
        match parse_time_specifier(time) {
            Ok(c) => {
                let mut this = self;
                this.time = Some(c);
                Ok(this)
            },
            Err(e) => Err(e),
        }
    }

    /// Sets a custom evaluation timeout from a composite duration literal,
    /// storing its tokens sorted by unit rank. As a documented asymmetry
    /// kept for compatibility, a malformed literal does not fail the
    /// fluent chain: the builder comes back unchanged, its timeout left as
    /// it was. `parse_duration` and `canonical_duration` are the paths
    /// that propagate `InvalidTimeDuration`.
    pub fn timeout(self, timeout: &str) -> (r: Result<Self, BuilderError>)
        ensures
            match r {
                Ok(b) => b.spec_metric() == self.spec_metric() && b.spec_labels()
                    == self.spec_labels() && b.spec_time() == self.spec_time() && (match parse_spec(
                    timeout@,
                ) {
                    Some(toks) => b.spec_timeout() == Some(toks.sort_by(dur_leq())),
                    None => b.spec_timeout() == self.spec_timeout(),
                }),
                Err(_) => false,
            },
    {
        let mut this = self;
        match parse_duration(timeout) {
            Ok(mut d) => {
                sort_durations(&mut d);
                this.timeout = Some(d);
            },
            Err(_) => {},
        }
        Ok(this)
    }

    /// Assembles the vector selector from the held metric name and
    /// matcher sequence, carrying the canonical time and timeout along
    /// unchanged. Fails exactly when neither a metric name nor any matcher
    /// was supplied; the builder itself is left untouched and may be
    /// reused.
    pub fn build(&self) -> (r: Result<InstantQuery, BuilderError>)
        ensures
            match r {
                Ok(q) => {
                    &&& (self.spec_metric() is Some || self.spec_labels() is Some)
                    &&& q.query@ == selector_spec(self.spec_metric(), self.spec_labels())
                    &&& (match self.spec_time() {
                        Some(t) => q.time matches Some(qt) && qt@ == t,
                        None => q.time is None,
                    })
                    &&& (match self.spec_timeout() {
                        Some(toks) => q.timeout matches Some(s) && s@
                            == crate::duration::render_spec(toks),
                        None => q.timeout is None,
                    })
                },
                Err(e) => self.spec_metric() is None && self.spec_labels() is None && e
                    == BuilderError::IllegalVectorSelector,
            },
    {
        let timeout: Option<String> = match &self.timeout {
            Some(to) => Some(render_durations(to)),
            None => None,
        };
        let labels: Option<String> = match &self.labels {
            Some(l) => Some(render_labels_exec(l)),
            None => None,
        };
        let query: String = match self.metric {
            Some(m) => match labels {
                Some(l) => {
                    let mut q = m.to_owned();
                    q.append("{");
                    q.append(l.as_str());
                    q.append("}");
                    proof {
                        reveal_strlit("{");
                        reveal_strlit("}");
                    }
                    q
                },
                None => m.to_owned(),
            },
            None => match labels {
                Some(l) => {
                    let mut q = "{".to_owned();
                    q.append(l.as_str());
                    q.append("}");
                    proof {
                        reveal_strlit("{");
                        reveal_strlit("}");
                    }
                    q
                },
                None => {
                    return Err(BuilderError::IllegalVectorSelector);
                },
            },
        };
        let time: Option<String> = match &self.time {
            Some(t) => Some(t.clone()),
            None => None,
        };
        Ok(InstantQuery { query, time, timeout })
    }
}

impl<'b> Default for InstantQueryBuilder<'b> {
    /// A fresh builder with nothing set.
    fn default() -> (r: Self)
        ensures
            r.spec_metric() is None,
            r.spec_labels() is None,
            r.spec_time() is None,
            r.spec_timeout() is None,
    {
        InstantQueryBuilder {
            metric: None,
            labels: None,
            time: None,
            timeout: None,
        }
    }
}

} // verus!
