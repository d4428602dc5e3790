//! Glob patterns, as globset understands them.
use crate::text::{chars_of, join2};
use crate::value::single;
use vstd::prelude::*;

verus! {

/// The longest pattern that surely compiles: globset panics on what its regex engine finds too
/// large.
pub const PATTERN_LENGTH_LIMIT: usize = 32768;

/// The deepest nesting that surely compiles: globset panics on what its regex engine finds too
/// deeply nested. The engine allows 250 levels, of which the pattern as a whole takes one, and
/// what is no group in it at most four.
pub const PATTERN_NESTING_LIMIT: usize = 245;

/// What the next character of a pattern belongs to.
#[derive(Clone, Copy, Debug, PartialEq, Eq, Structural)]
pub enum PatternPart {
    Plain,
    /// The character after a backslash.
    Escaped,
    /// The character after the opening bracket of a class.
    ClassStart,
    /// The first character of a class, which never closes it.
    ClassFirst,
    Class,
}

/// What was read of a group of alternatives, or of the whole pattern.
pub struct PatternGroupView {
    /// Whether the present alternative has an element.
    pub started: bool,
    /// Whether an alternative has more than one element.
    pub wide: bool,
    /// Whether there is more than one alternative.
    pub split: bool,
    /// The nesting of the groups in it.
    pub inner: nat,
}

#[derive(Clone, Copy, Debug, PartialEq, Eq)]
struct PatternGroup {
    started: bool,
    wide: bool,
    split: bool,
    inner: usize,
}

impl DeepView for PatternGroup {
    type V = PatternGroupView;

    closed spec fn deep_view(&self) -> PatternGroupView {
        PatternGroupView {
            started: self.started,
            wide: self.wide,
            split: self.split,
            inner: self.inner as nat,
        }
    }
}

impl PatternGroupView {
    pub open spec fn start() -> PatternGroupView {
        PatternGroupView { started: false, wide: false, split: false, inner: 0 }
    }

    /// After an element of that nesting.
    pub open spec fn with_element(self, nesting: nat) -> PatternGroupView {
        PatternGroupView {
            started: true,
            wide: self.wide || self.started,
            inner: if nesting > self.inner {
                nesting
            } else {
                self.inner
            },
            ..self
        }
    }

    /// After the comma behind an alternative.
    pub open spec fn with_alternative(self) -> PatternGroupView {
        PatternGroupView { started: false, split: true, ..self }
    }

    /// The nesting of the group: the regex engine counts the group itself, its alternatives
    /// where there are more than one, and the elements of an alternative that has more than one.
    pub open spec fn nesting(self) -> nat {
        1 + (if self.split {
            1nat
        } else {
            0nat
        }) + (if self.wide {
            1nat
        } else {
            0nat
        }) + self.inner
    }
}

impl PatternGroup {
    fn new() -> (result: PatternGroup)
        ensures
            result.deep_view() == PatternGroupView::start(),
    {
        PatternGroup { started: false, wide: false, split: false, inner: 0 }
    }

    fn with_element(self, nesting: usize) -> (result: PatternGroup)
        ensures
            result.deep_view() == self.deep_view().with_element(nesting as nat),
    {
        PatternGroup {
            started: true,
            wide: self.wide || self.started,
            split: self.split,
            inner: if nesting > self.inner {
                nesting
            } else {
                self.inner
            },
        }
    }

    fn with_alternative(self) -> (result: PatternGroup)
        ensures
            result.deep_view() == self.deep_view().with_alternative(),
    {
        PatternGroup { started: false, split: true, wide: self.wide, inner: self.inner }
    }

    fn nesting(self) -> (result: usize)
        requires
            self.deep_view().inner + 3 <= usize::MAX,
        ensures
            result == self.deep_view().nesting(),
    {
        let split: usize = if self.split {
            1
        } else {
            0
        };
        let wide: usize = if self.wide {
            1
        } else {
            0
        };
        1 + split + wide + self.inner
    }
}

/// How far the reading of a pattern has come: the pattern as a whole, the groups that are open
/// in it, and what comes next.
pub struct PatternReading {
    pub open: Seq<PatternGroupView>,
    pub part: PatternPart,
}

impl PatternReading {
    /// With another innermost group.
    pub open spec fn with_innermost(self, group: PatternGroupView) -> PatternReading {
        PatternReading { open: self.open.drop_last().push(group), ..self }
    }

    /// After an element that is no group.
    pub open spec fn with_element(self) -> PatternReading {
        PatternReading { part: PatternPart::Plain, ..self.with_innermost(self.open.last().with_element(0)) }
    }

    pub open spec fn after(self, c: char) -> PatternReading {
        match self.part {
            PatternPart::Plain => if c == '{' {
                PatternReading { open: self.open.push(PatternGroupView::start()), ..self }
            } else if c == '}' && self.open.len() > 1 {
                let outer = PatternReading { open: self.open.drop_last(), ..self };
                outer.with_innermost(outer.open.last().with_element(self.open.last().nesting()))
            } else if c == ',' && self.open.len() > 1 {
                self.with_innermost(self.open.last().with_alternative())
            } else if c == '[' {
                PatternReading { part: PatternPart::ClassStart, ..self }
            } else if c == '\\' {
                PatternReading { part: PatternPart::Escaped, ..self }
            } else {
                self.with_element()
            },
            PatternPart::Escaped => self.with_element(),
            PatternPart::ClassStart => if c == '!' || c == '^' {
                PatternReading { part: PatternPart::ClassFirst, ..self }
            } else {
                PatternReading { part: PatternPart::Class, ..self }
            },
            PatternPart::ClassFirst => PatternReading { part: PatternPart::Class, ..self },
            PatternPart::Class => if c == ']' {
                self.with_element()
            } else {
                self
            },
        }
    }
}

/// The reading of a pattern.
pub open spec fn reading(pattern: Seq<char>) -> PatternReading
    decreases pattern.len(),
{
    if pattern.len() == 0 {
        PatternReading { open: seq![PatternGroupView::start()], part: PatternPart::Plain }
    } else {
        reading(pattern.drop_last()).after(pattern.last())
    }
}

/// How deeply the groups of a pattern are nested for the regex engine.
pub open spec fn nesting(pattern: Seq<char>) -> nat {
    reading(pattern).open[0].inner
}

/// Whether a pattern is small enough to compile for sure.
pub open spec fn compilable(pattern: Seq<char>) -> bool {
    pattern.len() <= PATTERN_LENGTH_LIMIT && nesting(pattern) <= PATTERN_NESTING_LIMIT
}

/// What `globset::Glob::new` finds wrong in a pattern.
pub uninterp spec fn glob_error(pattern: Seq<char>) -> Option<Seq<char>>;

/// Whether the matcher that `globset::Glob::compile_matcher` makes matches a value.
pub uninterp spec fn glob_match(pattern: Seq<char>, value: Seq<char>) -> bool;

/// `globset::Glob::new`: the error in words, where the pattern is not a glob. It sets no limit to
/// a pattern: like any call, it ends where the machine's memory does, its stack included, of which
/// each level of alternatives takes some.
#[verifier::external_body]
fn glob_problem(pattern: &str) -> (result: Option<String>)
    ensures
        result.deep_view() == glob_error(pattern@),
{
    globset::Glob::new(pattern).err().map(|error| error.to_string())
}

/// `globset::GlobMatcher::is_match` of a pattern that is a glob. `compile_matcher` panics where
/// the regex engine refuses a pattern for its size or its nesting, and does neither within the
/// limits above.
#[verifier::external_body]
fn is_match(pattern: &str, value: &str) -> (result: bool)
    requires
        glob_error(pattern@) is None,
        compilable(pattern@),
    ensures
        result == glob_match(pattern@, value@),
{
    globset::Glob::new(pattern).unwrap().compile_matcher().is_match(value)
}

/// A pattern that is not a glob.
#[derive(Clone, Debug, PartialEq, Eq)]
pub struct GlobPatternError(String);

impl GlobPatternError {
    pub closed spec fn detail(&self) -> Seq<char> {
        self.0@
    }

    /// The error in words.
    pub fn message(&self) -> (result: String)
        ensures
            result@ == "invalid glob pattern: "@ + self.detail(),
    {
        join2("invalid glob pattern: ", self.0.as_str())
    }
}

/// The nesting of every group that is open is bounded by what was read.
spec fn bounded(open: Seq<PatternGroupView>, read: nat) -> bool {
    forall|k: int| 0 <= k < open.len() ==> (#[trigger] open[k]).inner <= 3 * read
}

fn change_innermost(open: &mut Vec<PatternGroup>, group: PatternGroup)
    requires
        old(open).len() > 0,
    ensures
        final(open).deep_view() == old(open).deep_view().drop_last().push(group.deep_view()),
{
    let ghost before = open.deep_view();
    let last: usize = open.len() - 1;
    open.set(last, group);
    assert(open.deep_view() =~= before.drop_last().push(group.deep_view()));
}

/// How deeply the groups of a pattern are nested for the regex engine.
fn nesting_of(pattern: &str) -> (result: usize)
    requires
        pattern@.len() <= PATTERN_LENGTH_LIMIT,
    ensures
        result == nesting(pattern@),
{
    let chars = chars_of(pattern);
    let mut open: Vec<PatternGroup> = single(PatternGroup::new());
    let mut part = PatternPart::Plain;
    let mut i: usize = 0;
    assert(pattern@.take(0) =~= Seq::empty());
    assert(open.deep_view() =~= reading(pattern@.take(0)).open);
    while i < chars.len()
        invariant
            chars@ == pattern@,
            chars.len() <= PATTERN_LENGTH_LIMIT,
            i <= chars.len(),
            open.len() > 0,
            open.deep_view() == reading(pattern@.take(i as int)).open,
            part == reading(pattern@.take(i as int)).part,
            bounded(open.deep_view(), i as nat),
        decreases chars.len() - i,
    {
        let c = chars[i];
        let ghost before = open.deep_view();
        assert(pattern@.take(i + 1).drop_last() =~= pattern@.take(i as int));
        let innermost: PatternGroup = open[open.len() - 1];
        assert(innermost.deep_view() == before.last());
        match part {
            PatternPart::Plain => {
                if c == '{' {
                    open.push(PatternGroup::new());
                    assert(open.deep_view() =~= before.push(PatternGroupView::start()));
                } else if c == '}' && open.len() > 1 {
                    assert(before.last() == before[before.len() - 1]);
                    let nesting: usize = innermost.nesting();
                    open.pop();
                    assert(open.deep_view() =~= before.drop_last());
                    let outer: PatternGroup = open[open.len() - 1];
                    assert(outer.deep_view() == before.drop_last().last());
                    assert(before.drop_last().last() == before[before.len() - 2]);
                    change_innermost(&mut open, outer.with_element(nesting));
                } else if c == ',' && open.len() > 1 {
                    change_innermost(&mut open, innermost.with_alternative());
                } else if c == '[' {
                    part = PatternPart::ClassStart;
                } else if c == '\\' {
                    part = PatternPart::Escaped;
                } else {
                    change_innermost(&mut open, innermost.with_element(0));
                }
            },
            PatternPart::Escaped => {
                part = PatternPart::Plain;
                change_innermost(&mut open, innermost.with_element(0));
            },
            PatternPart::ClassStart => {
                part = if c == '!' || c == '^' {
                    PatternPart::ClassFirst
                } else {
                    PatternPart::Class
                };
            },
            PatternPart::ClassFirst => {
                part = PatternPart::Class;
            },
            PatternPart::Class => {
                if c == ']' {
                    part = PatternPart::Plain;
                    change_innermost(&mut open, innermost.with_element(0));
                }
            },
        }
        i = i + 1;
        assert(open.deep_view() == reading(pattern@.take(i as int)).open);
        assert(bounded(open.deep_view(), i as nat));
    }
    assert(pattern@.take(i as int) =~= pattern@);
    open[0].inner
}

/// Whether a pattern is small enough to compile for sure.
pub fn is_compilable(pattern: &str) -> (result: bool)
    ensures
        result == compilable(pattern@),
{
    chars_of(pattern).len() <= PATTERN_LENGTH_LIMIT && nesting_of(pattern) <= PATTERN_NESTING_LIMIT
}

/// What is wrong with a pattern, where it is no glob.
pub fn check_glob(pattern: &str) -> (result: Option<String>)
    ensures
        result.deep_view() == glob_error(pattern@),
{
    glob_problem(pattern)
}

/// Whether `value` matches the glob `pattern`.
pub fn matches_glob(pattern: &str, value: &str) -> (result: Result<bool, GlobPatternError>)
    requires
        compilable(pattern@),
    ensures
        result matches Ok(matched) ==> glob_error(pattern@) is None && matched == glob_match(
            pattern@,
            value@,
        ),
        result matches Err(error) ==> glob_error(pattern@) == Some(error.detail()),
{
    match glob_problem(pattern) {
        Some(error) => Err(GlobPatternError(error)),
        None => Ok(is_match(pattern, value)),
    }
}

/// Whether a pattern lets a value through: no pattern lets all through, and a pattern needs
/// a value; one that is not a glob lets none through.
pub open spec fn lets_through(pattern: Option<Seq<char>>, value: Option<Seq<char>>) -> bool {
    match pattern {
        None => true,
        Some(glob) => value is Some && glob_error(glob) is None && glob_match(glob, value->0),
    }
}

/// Whether a pattern lets a value through.
pub fn matches_optional_glob(pattern: &Option<String>, value: Option<&str>) -> (result: bool)
    requires
        pattern matches Some(glob) ==> compilable(glob@),
    ensures
        result == lets_through(
            pattern.deep_view(),
            match value {
                Some(text) => Some(text@),
                None => None,
            },
        ),
{
    match pattern {
        None => true,
        Some(glob) => match value {
            None => false,
            Some(text) => match matches_glob(glob.as_str(), text) {
                Ok(matched) => matched,
                Err(_) => false,
            },
        },
    }
}

/// No pattern lets everything through. A pattern lets through what it matches as a glob, and nothing
/// where there is no value or it is no glob.
pub proof fn a_pattern_lets_through_what_it_matches(pattern: Option<Seq<char>>, value: Option<Seq<char>>)
    ensures
        pattern is None ==> lets_through(pattern, value),
        pattern is Some && value is None ==> !lets_through(pattern, value),
        pattern is Some && value is Some ==> (lets_through(pattern, value) <==> glob_error(pattern->0) is None
            && glob_match(pattern->0, value->0)),
{
}

/// A pattern without braces is not nested: it is small enough where it has no more than 32768
/// characters.
pub proof fn without_braces_nothing_is_nested(pattern: Seq<char>)
    requires
        forall|i: int| 0 <= i < pattern.len() ==> #[trigger] pattern[i] != '{',
    ensures
        nesting(pattern) == 0,
        compilable(pattern) <==> pattern.len() <= 32_768,
{
    lemma_flat(pattern);
}

proof fn lemma_flat(pattern: Seq<char>)
    requires
        forall|i: int| 0 <= i < pattern.len() ==> #[trigger] pattern[i] != '{',
    ensures
        reading(pattern).open.len() == 1,
        reading(pattern).open[0].inner == 0,
    decreases pattern.len(),
{
    if pattern.len() > 0 {
        let rest = pattern.drop_last();
        assert forall|i: int| 0 <= i < rest.len() implies #[trigger] rest[i] != '{' by {
            assert(rest[i] == pattern[i]);
        }
        lemma_flat(rest);
        assert(reading(rest).open =~= seq![reading(rest).open[0]]);
        assert(pattern.last() == pattern[pattern.len() - 1]);
    }
}

/// A star in that many braces.
pub open spec fn in_braces(depth: nat) -> Seq<char> {
    Seq::new(depth, |i: int| '{').push('*') + Seq::new(depth, |i: int| '}')
}

/// Each pair of braces is a level: a pattern may have no more than 245 of them, one in the other.
pub proof fn each_pair_of_braces_is_a_level(depth: nat)
    ensures
        nesting(in_braces(depth)) == depth,
        depth <= 245 ==> compilable(in_braces(depth)),
        depth > 245 ==> !compilable(in_braces(depth)),
{
    lemma_closing(depth, depth);
}

/// The innermost group that has a star in it.
spec fn starred(inner: nat) -> PatternGroupView {
    PatternGroupView { started: true, wide: false, split: false, inner }
}

proof fn lemma_opening(depth: nat)
    ensures
        reading(Seq::new(depth, |i: int| '{')).part is Plain,
        reading(Seq::new(depth, |i: int| '{')).open == Seq::new(depth + 1, |i: int| PatternGroupView::start()),
    decreases depth,
{
    let pattern = Seq::new(depth, |i: int| '{');
    if depth > 0 {
        assert(pattern.drop_last() =~= Seq::new((depth - 1) as nat, |i: int| '{'));
        lemma_opening((depth - 1) as nat);
        assert(reading(pattern).open =~= Seq::new(depth + 1, |i: int| PatternGroupView::start()));
    } else {
        assert(reading(pattern).open =~= Seq::new(1, |i: int| PatternGroupView::start()));
    }
}

proof fn lemma_closing(depth: nat, closed: nat)
    requires
        closed <= depth,
    ensures
        ({
            let pattern = Seq::new(depth, |i: int| '{').push('*') + Seq::new(closed, |i: int| '}');
            &&& reading(pattern).part is Plain
            &&& reading(pattern).open == Seq::new((depth - closed) as nat, |i: int| PatternGroupView::start()).push(
                starred(closed),
            )
        }),
    decreases closed,
{
    let opened = Seq::new(depth, |i: int| '{');
    let pattern = opened.push('*') + Seq::new(closed, |i: int| '}');
    let expected = Seq::new((depth - closed) as nat, |i: int| PatternGroupView::start()).push(starred(closed));
    if closed == 0 {
        assert(pattern =~= opened.push('*'));
        assert(pattern.drop_last() =~= opened);
        lemma_opening(depth);
        assert(reading(pattern).open =~= expected);
    } else {
        let less = (closed - 1) as nat;
        assert(pattern.drop_last() =~= opened.push('*') + Seq::new(less, |i: int| '}'));
        assert(pattern.last() == '}');
        lemma_closing(depth, less);
        let before = Seq::new((depth - less) as nat, |i: int| PatternGroupView::start()).push(starred(less));
        assert(before.drop_last() =~= Seq::new((depth - less) as nat, |i: int| PatternGroupView::start()));
        assert(before.drop_last().drop_last() =~= Seq::new(
            (depth - closed) as nat,
            |i: int| PatternGroupView::start(),
        ));
        assert(reading(pattern).open =~= expected);
    }
}

} // verus!
