//! Text: the string operations that the rest of the library is stated over.
use vstd::prelude::*;
use vstd::string::StrSliceExecFns;
use vstd::string::StringExecFns;
use vstd::std_specs::iter::IteratorSpec;

verus! {

/// `String::push`: the character is added at the end of the text.
pub assume_specification[ String::push ](text: &mut String, c: char)
    ensures
        final(text)@ == old(text)@.push(c),
;

/// The lower case form of an ASCII capital; every other character stays.
pub open spec fn lower(c: char) -> char {
    if 'A' <= c && c <= 'Z' {
        ((c as u32) + 32) as char
    } else {
        c
    }
}

/// `s` with every ASCII capital in lower case.
pub open spec fn lowered(s: Seq<char>) -> Seq<char> {
    Seq::new(s.len(), |i: int| lower(s[i]))
}

/// Equality of two texts that disregards the case of ASCII letters.
pub open spec fn same_ignoring_case(a: Seq<char>, b: Seq<char>) -> bool {
    lowered(a) == lowered(b)
}

/// White space as Unicode defines it (`char::is_whitespace`).
pub open spec fn is_space(c: char) -> bool {
    ||| 0x09 <= c as u32 <= 0x0d
    ||| c as u32 == 0x20
    ||| c as u32 == 0x85
    ||| c as u32 == 0xa0
    ||| c as u32 == 0x1680
    ||| 0x2000 <= c as u32 <= 0x200a
    ||| c as u32 == 0x2028
    ||| c as u32 == 0x2029
    ||| c as u32 == 0x202f
    ||| c as u32 == 0x205f
    ||| c as u32 == 0x3000
}

/// A control character (`char::is_control`).
pub open spec fn is_control(c: char) -> bool {
    c as u32 <= 0x1f || 0x7f <= c as u32 <= 0x9f
}

pub open spec fn trim_start(s: Seq<char>) -> Seq<char>
    decreases s.len(),
{
    if s.len() > 0 && is_space(s[0]) {
        trim_start(s.drop_first())
    } else {
        s
    }
}

pub open spec fn trim_end(s: Seq<char>) -> Seq<char>
    decreases s.len(),
{
    if s.len() > 0 && is_space(s.last()) {
        trim_end(s.drop_last())
    } else {
        s
    }
}

/// `s` without the white space at both of its ends.
pub open spec fn trimmed(s: Seq<char>) -> Seq<char> {
    trim_end(trim_start(s))
}

/// Whether `s` holds nothing but white space.
pub open spec fn blank(s: Seq<char>) -> bool {
    forall|i: int| 0 <= i < s.len() ==> is_space(#[trigger] s[i])
}

/// Whether `part` stands somewhere in `s`.
pub open spec fn contains_text(s: Seq<char>, part: Seq<char>) -> bool {
    exists|i: int| #[trigger] occurs_at(s, part, i)
}

pub open spec fn occurs_at(s: Seq<char>, part: Seq<char>, i: int) -> bool {
    0 <= i && i + part.len() <= s.len() && s.subrange(i, i + part.len()) == part
}

/// The order of texts: lexicographic by code point.
pub open spec fn text_less(a: Seq<char>, b: Seq<char>) -> bool
    decreases a.len(),
{
    if b.len() == 0 {
        false
    } else if a.len() == 0 {
        true
    } else if a[0] != b[0] {
        a[0] < b[0]
    } else {
        text_less(a.drop_first(), b.drop_first())
    }
}

/// The digit characters, up to base sixteen.
pub open spec fn digit(d: int) -> char {
    if d < 10 {
        (48 + d) as char
    } else {
        (87 + d) as char
    }
}

/// The decimal digits of `n`, without leading zeros.
pub open spec fn decimal(n: nat) -> Seq<char>
    decreases n,
{
    if n < 10 {
        seq![digit(n as int)]
    } else {
        decimal(n / 10).push(digit((n % 10) as int))
    }
}

/// The last `width` hexadecimal digits of `n`.
pub open spec fn hexadecimal(n: nat, width: nat) -> Seq<char>
    decreases width,
{
    if width == 0 {
        Seq::empty()
    } else {
        hexadecimal(n / 16, (width - 1) as nat).push(digit((n % 16) as int))
    }
}

/// `n` in decimal, with zeros in front where it has fewer than `width` digits.
pub open spec fn padded(n: nat, width: nat) -> Seq<char> {
    let digits = decimal(n);
    if digits.len() < width {
        Seq::new((width - digits.len()) as nat, |i: int| '0') + digits
    } else {
        digits
    }
}

/// The texts of `parts`, one after another, with `separator` between two of them.
pub open spec fn joined(parts: Seq<Seq<char>>, separator: Seq<char>) -> Seq<char>
    decreases parts.len(),
{
    if parts.len() == 0 {
        Seq::empty()
    } else if parts.len() == 1 {
        parts[0]
    } else {
        joined(parts.drop_last(), separator) + separator + parts.last()
    }
}

/// The number of bytes that a character takes in UTF-8.
pub open spec fn char_width(c: char) -> nat {
    if c as u32 <= 0x7f {
        1
    } else if c as u32 <= 0x7ff {
        2
    } else if c as u32 <= 0xffff {
        3
    } else {
        4
    }
}

/// The number of bytes that a text takes in UTF-8.
pub open spec fn byte_width(s: Seq<char>) -> nat
    decreases s.len(),
{
    if s.len() == 0 {
        0
    } else {
        byte_width(s.drop_last()) + char_width(s.last())
    }
}

pub proof fn lemma_text_less_irreflexive(a: Seq<char>)
    ensures
        !text_less(a, a),
    decreases a.len(),
{
    if a.len() > 0 {
        lemma_text_less_irreflexive(a.drop_first());
    }
}

pub proof fn lemma_text_less_total(a: Seq<char>, b: Seq<char>)
    ensures
        text_less(a, b) || text_less(b, a) || a == b,
    decreases a.len(),
{
    if a.len() == 0 && b.len() == 0 {
        assert(a =~= b);
    } else if a.len() > 0 && b.len() > 0 && a[0] == b[0] {
        lemma_text_less_total(a.drop_first(), b.drop_first());
        if a.drop_first() == b.drop_first() {
            assert(a =~= seq![a[0]] + a.drop_first());
            assert(b =~= seq![b[0]] + b.drop_first());
        }
    }
}

pub proof fn lemma_text_less_transitive(a: Seq<char>, b: Seq<char>, c: Seq<char>)
    requires
        text_less(a, b),
        text_less(b, c),
    ensures
        text_less(a, c),
    decreases a.len(),
{
    if a.len() > 0 && b.len() > 0 && c.len() > 0 && a[0] == b[0] && b[0] == c[0] {
        lemma_text_less_transitive(a.drop_first(), b.drop_first(), c.drop_first());
    }
}

/// How one text stands to another.
#[derive(Clone, Copy, Debug, PartialEq, Eq, Structural)]
pub enum Rank {
    Before,
    Equal,
    After,
}

/// Which of two texts comes first.
pub fn rank(a: &str, b: &str) -> (result: Rank)
    ensures
        result == Rank::Before <==> text_less(a@, b@),
        result == Rank::Equal <==> a@ == b@,
        result == Rank::After <==> text_less(b@, a@),
{
    let x = chars_of(a);
    let y = chars_of(b);
    let mut i: usize = 0;
    proof {
        lemma_text_less_irreflexive(a@);
        assert(a@.skip(0) =~= a@);
        assert(b@.skip(0) =~= b@);
    }
    while i < x.len() && i < y.len() && x[i] == y[i]
        invariant
            x@ == a@,
            y@ == b@,
            i <= x.len(),
            i <= y.len(),
            forall|j: int| 0 <= j < i ==> a@[j] == #[trigger] b@[j],
            text_less(a@, b@) <==> text_less(a@.skip(i as int), b@.skip(i as int)),
            text_less(b@, a@) <==> text_less(b@.skip(i as int), a@.skip(i as int)),
        decreases x.len() - i,
    {
        assert(a@.skip(i as int).drop_first() =~= a@.skip(i + 1));
        assert(b@.skip(i as int).drop_first() =~= b@.skip(i + 1));
        i = i + 1;
    }
    if i == x.len() {
        if i == y.len() {
            assert(a@ =~= b@);
            Rank::Equal
        } else {
            Rank::Before
        }
    } else if i == y.len() {
        Rank::After
    } else {
        assert(a@.skip(i as int)[0] == a@[i as int]);
        assert(b@.skip(i as int)[0] == b@[i as int]);
        if x[i] < y[i] {
            Rank::Before
        } else {
            Rank::After
        }
    }
}

/// Whether two texts are equal.
pub fn same_text(a: &str, b: &str) -> (result: bool)
    ensures
        result == (a@ == b@),
{
    match rank(a, b) {
        Rank::Equal => true,
        _ => false,
    }
}

/// The characters of a text.
pub fn chars_of(s: &str) -> (result: Vec<char>)
    ensures
        result@ == s@,
{
    let mut iter = s.chars();
    let mut result: Vec<char> = Vec::new();
    assert(iter.remaining() == s@);
    assert(s@ =~= result@ + iter.remaining());
    loop
        invariant
            s@ == result@ + iter.remaining(),
            iter.decrease() is Some,
        decreases iter.decrease()->0,
    {
        let ghost rest = iter.remaining();
        match iter.next() {
            None => {
                assert(rest =~= Seq::<char>::empty());
                assert(result@ + rest =~= result@);
                return result;
            },
            Some(c) => {
                let ghost before = result@;
                result.push(c);
                assert(before + rest =~= result@ + iter.remaining());
            },
        }
    }
}

/// The text that the characters from `from` up to `to` make.
pub fn text_of(chars: &Vec<char>, from: usize, to: usize) -> (result: String)
    requires
        from <= to <= chars@.len(),
    ensures
        result@ == chars@.subrange(from as int, to as int),
{
    let mut result = String::new();
    let mut i: usize = from;
    assert(result@ =~= chars@.subrange(from as int, i as int));
    while i < to
        invariant
            from <= i <= to <= chars@.len(),
            result@ == chars@.subrange(from as int, i as int),
        decreases to - i,
    {
        result.push(chars[i]);
        i = i + 1;
        assert(result@ =~= chars@.subrange(from as int, i as int));
    }
    result
}

fn lower_char(c: char) -> (result: char)
    ensures
        result == lower(c),
{
    if 'A' <= c && c <= 'Z' {
        ((c as u8) + 32) as char
    } else {
        c
    }
}

/// Whether two texts are equal but for the case of ASCII letters.
pub fn eq_ignore_ascii_case(a: &str, b: &str) -> (result: bool)
    ensures
        result == same_ignoring_case(a@, b@),
{
    let x = chars_of(a);
    let y = chars_of(b);
    if x.len() != y.len() {
        assert(lowered(a@).len() != lowered(b@).len());
        return false;
    }
    let mut i: usize = 0;
    while i < x.len()
        invariant
            x@ == a@,
            y@ == b@,
            x.len() == y.len(),
            i <= x.len(),
            forall|j: int| 0 <= j < i ==> lower(#[trigger] a@[j]) == lower(b@[j]),
        decreases x.len() - i,
    {
        if lower_char(x[i]) != lower_char(y[i]) {
            assert(lowered(a@)[i as int] != lowered(b@)[i as int]);
            return false;
        }
        i = i + 1;
    }
    assert(lowered(a@) =~= lowered(b@));
    true
}

/// The text with its ASCII capitals in lower case.
pub fn to_ascii_lowercase(s: &str) -> (result: String)
    ensures
        result@ == lowered(s@),
{
    let x = chars_of(s);
    let mut result = String::new();
    let mut i: usize = 0;
    while i < x.len()
        invariant
            x@ == s@,
            i <= x.len(),
            result@ == lowered(s@).take(i as int),
        decreases x.len() - i,
    {
        result.push(lower_char(x[i]));
        i = i + 1;
        assert(result@ =~= lowered(s@).take(i as int));
    }
    assert(lowered(s@).take(i as int) =~= lowered(s@));
    result
}

pub fn is_space_char(c: char) -> (result: bool)
    ensures
        result == is_space(c),
{
    let n: u32 = c as u32;
    (0x09 <= n && n <= 0x0d) || n == 0x20 || n == 0x85 || n == 0xa0 || n == 0x1680 || (0x2000 <= n && n
        <= 0x200a) || n == 0x2028 || n == 0x2029 || n == 0x202f || n == 0x205f || n == 0x3000
}

pub fn is_control_char(c: char) -> (result: bool)
    ensures
        result == is_control(c),
{
    let n: u32 = c as u32;
    n <= 0x1f || (0x7f <= n && n <= 0x9f)
}

/// Whether a text is empty or holds white space only.
pub fn is_blank(s: &str) -> (result: bool)
    ensures
        result == blank(s@),
{
    let x = chars_of(s);
    let mut i: usize = 0;
    while i < x.len()
        invariant
            x@ == s@,
            i <= x.len(),
            forall|j: int| 0 <= j < i ==> is_space(#[trigger] s@[j]),
        decreases x.len() - i,
    {
        if !is_space_char(x[i]) {
            return false;
        }
        i = i + 1;
    }
    true
}

/// Whether a control character stands in a text.
pub fn has_control(s: &str) -> (result: bool)
    ensures
        result == exists|i: int| 0 <= i < s@.len() && is_control(#[trigger] s@[i]),
{
    let x = chars_of(s);
    let mut i: usize = 0;
    while i < x.len()
        invariant
            x@ == s@,
            i <= x.len(),
            forall|j: int| 0 <= j < i ==> !is_control(#[trigger] s@[j]),
        decreases x.len() - i,
    {
        if is_control_char(x[i]) {
            return true;
        }
        i = i + 1;
    }
    false
}

/// A text without the white space at both of its ends.
pub fn trim(s: &str) -> (result: String)
    ensures
        result@ == trimmed(s@),
{
    let x = chars_of(s);
    let mut from: usize = 0;
    assert(s@.skip(0) =~= s@);
    while from < x.len() && is_space_char(x[from])
        invariant
            x@ == s@,
            from <= x.len(),
            trim_start(s@) == trim_start(s@.skip(from as int)),
        decreases x.len() - from,
    {
        assert(s@.skip(from as int).drop_first() =~= s@.skip(from as int + 1));
        from = from + 1;
    }
    assert(trim_start(s@) == s@.skip(from as int));
    let mut to: usize = x.len();
    assert(s@.subrange(from as int, to as int) =~= s@.skip(from as int));
    while from < to && is_space_char(x[to - 1])
        invariant
            x@ == s@,
            from <= to <= x.len(),
            trimmed(s@) == trim_end(s@.subrange(from as int, to as int)),
        decreases to - from,
    {
        assert(s@.subrange(from as int, to as int).drop_last() =~= s@.subrange(from as int, to - 1));
        to = to - 1;
    }
    text_of(&x, from, to)
}

/// Whether `part` stands somewhere in `s`.
pub fn contains(s: &str, part: &str) -> (result: bool)
    ensures
        result == contains_text(s@, part@),
{
    let x = chars_of(s);
    let y = chars_of(part);
    let mut i: usize = 0;
    if y.len() > x.len() {
        return false;
    }
    while i <= x.len() - y.len()
        invariant
            x@ == s@,
            y@ == part@,
            y.len() <= x.len(),
            i <= x.len() - y.len() + 1,
            forall|j: int| 0 <= j < i ==> !#[trigger] occurs_at(s@, part@, j),
        decreases x.len() + 1 - i,
    {
        let mut k: usize = 0;
        while k < y.len() && x[i + k] == y[k]
            invariant
                x@ == s@,
                y@ == part@,
                i + y.len() <= x.len(),
                k <= y.len(),
                forall|j: int| 0 <= j < k ==> s@[i + j] == #[trigger] part@[j],
            decreases y.len() - k,
        {
            k = k + 1;
        }
        if k == y.len() {
            assert(s@.subrange(i as int, i + part@.len()) =~= part@);
            assert(occurs_at(s@, part@, i as int));
            return true;
        }
        assert(!occurs_at(s@, part@, i as int)) by {
            assert(s@.subrange(i as int, i + part@.len())[k as int] == s@[i + k]);
        }
        i = i + 1;
    }
    false
}

fn digit_char(d: u64) -> (result: char)
    requires
        d < 16,
    ensures
        result == digit(d as int),
{
    if d < 10 {
        (48 + d as u8) as char
    } else {
        (87 + d as u8) as char
    }
}

/// A number in decimal.
pub fn number(n: u64) -> (result: String)
    ensures
        result@ == decimal(n as nat),
    decreases n,
{
    if n < 10 {
        let mut result = String::new();
        result.push(digit_char(n));
        assert(result@ =~= seq![digit(n as int)]);
        result
    } else {
        let mut result = number(n / 10);
        result.push(digit_char(n % 10));
        result
    }
}

/// A number in decimal that may be larger than the others.
pub fn large_number(n: u128) -> (result: String)
    ensures
        result@ == decimal(n as nat),
    decreases n,
{
    if n < 10 {
        let mut result = String::new();
        result.push(digit_char(n as u64));
        assert(result@ =~= seq![digit(n as int)]);
        result
    } else {
        let mut result = large_number(n / 10);
        result.push(digit_char((n % 10) as u64));
        result
    }
}

/// The last `width` hexadecimal digits of a number.
pub fn hex(n: u64, width: usize) -> (result: String)
    ensures
        result@ == hexadecimal(n as nat, width as nat),
    decreases width,
{
    if width == 0 {
        String::new()
    } else {
        let mut result = hex(n / 16, width - 1);
        result.push(digit_char(n % 16));
        result
    }
}

/// A number in decimal, with zeros in front up to `width` digits.
pub fn padded_number(n: u64, width: usize) -> (result: String)
    ensures
        result@ == padded(n as nat, width as nat),
{
    let digits = number(n);
    let length: usize = digits.as_str().unicode_len();
    let mut result = String::new();
    let mut i: usize = length;
    while i < width
        invariant
            length == digits@.len(),
            length <= i,
            length <= width ==> i <= width,
            length >= width ==> i == length,
            result@ == Seq::new((i - length) as nat, |j: int| '0'),
        decreases width - i,
    {
        result.push('0');
        i = i + 1;
        assert(result@ =~= Seq::new((i - length) as nat, |j: int| '0'));
    }
    let ghost zeros = result@;
    result.append(digits.as_str());
    assert(result@ == zeros + digits@);
    if length >= width {
        assert(zeros + digits@ =~= digits@);
    }
    result
}

pub fn join2(a: &str, b: &str) -> (result: String)
    ensures
        result@ == a@ + b@,
{
    let mut result = a.to_owned();
    result.append(b);
    result
}

pub fn join3(a: &str, b: &str, c: &str) -> (result: String)
    ensures
        result@ == a@ + b@ + c@,
{
    let mut result = a.to_owned();
    result.append(b);
    result.append(c);
    result
}

pub fn join4(a: &str, b: &str, c: &str, d: &str) -> (result: String)
    ensures
        result@ == a@ + b@ + c@ + d@,
{
    let mut result = join3(a, b, c);
    result.append(d);
    result
}

pub fn join5(a: &str, b: &str, c: &str, d: &str, e: &str) -> (result: String)
    ensures
        result@ == a@ + b@ + c@ + d@ + e@,
{
    let mut result = join4(a, b, c, d);
    result.append(e);
    result
}

pub fn join6(a: &str, b: &str, c: &str, d: &str, e: &str, f: &str) -> (result: String)
    ensures
        result@ == a@ + b@ + c@ + d@ + e@ + f@,
{
    let mut result = join5(a, b, c, d, e);
    result.append(f);
    result
}

pub fn join7(a: &str, b: &str, c: &str, d: &str, e: &str, f: &str, g: &str) -> (result: String)
    ensures
        result@ == a@ + b@ + c@ + d@ + e@ + f@ + g@,
{
    let mut result = join6(a, b, c, d, e, f);
    result.append(g);
    result
}

pub fn join9(a: &str, b: &str, c: &str, d: &str, e: &str, f: &str, g: &str, h: &str, i: &str) -> (result: String)
    ensures
        result@ == a@ + b@ + c@ + d@ + e@ + f@ + g@ + h@ + i@,
{
    join3(join7(a, b, c, d, e, f, g).as_str(), h, i)
}

/// The texts one after another, with `separator` between two of them.
pub fn join(parts: &Vec<String>, separator: &str) -> (result: String)
    ensures
        result@ == joined(parts.deep_view(), separator@),
{
    let mut result = String::new();
    let mut i: usize = 0;
    let ghost all = parts.deep_view();
    assert(all.take(0) =~= Seq::empty());
    while i < parts.len()
        invariant
            all == parts.deep_view(),
            i <= parts.len(),
            result@ == joined(all.take(i as int), separator@),
        decreases parts.len() - i,
    {
        if i > 0 {
            result.append(separator);
        }
        result.append(parts[i].as_str());
        i = i + 1;
        proof {
            let prefix = all.take(i as int);
            assert(prefix.drop_last() =~= all.take(i - 1));
            assert(prefix.last() == parts@[i - 1]@);
            if i == 1 {
                assert(result@ =~= prefix[0]);
            }
        }
    }
    assert(all.take(i as int) =~= all);
    result
}

/// The number of bytes that a text takes in UTF-8, or `limit` + 1 where it takes more
/// than `limit`.
pub fn bytes_up_to(s: &str, limit: usize) -> (result: usize)
    requires
        limit < 0x1000_0000,
    ensures
        result == if byte_width(s@) <= limit { byte_width(s@) } else { (limit + 1) as nat },
{
    let x = chars_of(s);
    let mut width: usize = 0;
    let mut i: usize = 0;
    assert(s@.take(0) =~= Seq::empty());
    while i < x.len()
        invariant
            x@ == s@,
            i <= x.len(),
            limit < 0x1000_0000,
            width <= limit,
            width == byte_width(s@.take(i as int)),
        decreases x.len() - i,
    {
        let n: u32 = x[i] as u32;
        width = width + if n <= 0x7f { 1usize } else if n <= 0x7ff { 2usize } else if n <= 0xffff { 3usize } else { 4usize };
        i = i + 1;
        proof {
            assert(s@.take(i as int).drop_last() =~= s@.take(i - 1));
            lemma_byte_width_grows(s@, i as int);
        }
        if width > limit {
            return limit + 1;
        }
    }
    assert(s@.take(i as int) =~= s@);
    width
}

proof fn lemma_byte_width_grows(s: Seq<char>, i: int)
    requires
        0 <= i <= s.len(),
    ensures
        byte_width(s.take(i)) <= byte_width(s),
    decreases s.len() - i,
{
    if i < s.len() {
        lemma_byte_width_grows(s, i + 1);
        assert(s.take(i + 1).drop_last() =~= s.take(i));
    } else {
        assert(s.take(i) =~= s);
    }
}

/// A text in quotes, with what does not print escaped, as std's `Debug` writes it.
pub uninterp spec fn quoted_text(s: Seq<char>) -> Seq<char>;

/// `std::fmt::Debug` of `str`: the text in quotes, with what does not print escaped.
#[verifier::external_body]
pub(crate) fn quoted(s: &str) -> (result: String)
    ensures
        result@ == quoted_text(s@),
{
    format!("{:?}", s)
}

/// Whether two characters are the same, but for the case of an ASCII letter.
pub open spec fn same_letter(a: char, b: char) -> bool {
    ||| a == b
    ||| 'A' <= a <= 'Z' && b as int == a as int + 32
    ||| 'A' <= b <= 'Z' && a as int == b as int + 32
}

/// Whether two texts are the same, but for the case of ASCII letters.
pub open spec fn equal_but_for_case(a: Seq<char>, b: Seq<char>) -> bool {
    a.len() == b.len() && forall|i: int| 0 <= i < a.len() ==> same_letter(#[trigger] a[i], b[i])
}

/// Two texts are taken for the same where they differ in nothing but the case of ASCII letters.
pub proof fn case_is_disregarded(a: Seq<char>, b: Seq<char>)
    ensures
        same_ignoring_case(a, b) <==> equal_but_for_case(a, b),
{
    if same_ignoring_case(a, b) {
        assert(lowered(a).len() == a.len() && lowered(b).len() == b.len());
        assert forall|i: int| 0 <= i < a.len() implies same_letter(#[trigger] a[i], b[i]) by {
            assert(lowered(a)[i] == lower(a[i]) && lowered(b)[i] == lower(b[i]));
        }
    }
    if equal_but_for_case(a, b) {
        assert forall|i: int| 0 <= i < a.len() implies lower(a[i]) == lower(b[i]) by {
            assert(same_letter(a[i], b[i]));
        }
        assert(lowered(a) =~= lowered(b));
    }
}

/// A text in lower case is the same text but for its capitals, and holds none.
pub proof fn lowering_leaves_no_capital(s: Seq<char>)
    ensures
        equal_but_for_case(s, lowered(s)),
        forall|i: int| 0 <= i < s.len() ==> !('A' <= #[trigger] lowered(s)[i] <= 'Z'),
        lowered(lowered(s)) == lowered(s),
{
    assert(lowered(lowered(s)) =~= lowered(s));
}

proof fn lemma_trim_start(s: Seq<char>) -> (n: int)
    ensures
        0 <= n <= s.len(),
        blank(s.take(n)),
        trim_start(s) == s.skip(n),
        n < s.len() ==> !is_space(s[n]),
    decreases s.len(),
{
    if s.len() > 0 && is_space(s[0]) {
        let m = lemma_trim_start(s.drop_first());
        assert(s.drop_first().skip(m) =~= s.skip(m + 1));
        assert forall|i: int| 0 <= i < m + 1 implies is_space(#[trigger] s.take(m + 1)[i]) by {
            if i > 0 {
                assert(s.drop_first().take(m)[i - 1] == s[i]);
            }
        }
        m + 1
    } else {
        assert(s.skip(0) =~= s);
        0
    }
}

proof fn lemma_trim_end(s: Seq<char>) -> (n: int)
    ensures
        0 <= n <= s.len(),
        blank(s.skip(n)),
        trim_end(s) == s.take(n),
        n > 0 ==> !is_space(s[n - 1]),
    decreases s.len(),
{
    if s.len() > 0 && is_space(s.last()) {
        let m = lemma_trim_end(s.drop_last());
        assert(s.drop_last().take(m) =~= s.take(m));
        assert forall|i: int| 0 <= i < s.len() - m implies is_space(#[trigger] s.skip(m)[i]) by {
            if i < s.len() - m - 1 {
                assert(s.drop_last().skip(m)[i] == s[m + i]);
            }
        }
        m
    } else {
        assert(s.take(s.len() as int) =~= s);
        s.len() as int
    }
}

/// Trimming takes white space from both ends of a text and nothing else, until none is left there.
pub proof fn trimming_takes_white_space_from_both_ends(s: Seq<char>)
    ensures
        exists|i: int, j: int|
            0 <= i <= j <= s.len() && #[trigger] s.subrange(i, j) == trimmed(s) && (forall|k: int|
                0 <= k < s.len() && (k < i || j <= k) ==> is_space(#[trigger] s[k])),
        trimmed(s).len() > 0 ==> !is_space(trimmed(s)[0]) && !is_space(trimmed(s).last()),
        trimmed(s).len() == 0 <==> blank(s),
{
    let n = lemma_trim_start(s);
    let rest = s.skip(n);
    let m = lemma_trim_end(rest);
    assert(s.subrange(n, n + m) =~= rest.take(m));
    assert forall|k: int| 0 <= k < s.len() && (k < n || n + m <= k) implies is_space(#[trigger] s[k]) by {
        if k < n {
            assert(s.take(n)[k] == s[k]);
        } else {
            assert(rest.skip(m)[k - n - m] == s[k]);
        }
    }
    if trimmed(s).len() > 0 {
        assert(trimmed(s)[0] == s[n]);
        assert(trimmed(s).last() == rest[m - 1]);
    }
    if blank(s) && trimmed(s).len() > 0 {
        assert(is_space(s[n]));
    }
}

/// The number that decimal digits write.
pub open spec fn digits_value(s: Seq<char>) -> int
    decreases s.len(),
{
    if s.len() == 0 {
        0
    } else {
        digits_value(s.drop_last()) * 10 + (s.last() as int - '0' as int)
    }
}

/// A number in decimal is written in digits, without a zero in front unless it is zero itself, and
/// reads as the number.
pub proof fn decimal_writes_the_number(n: nat)
    ensures
        decimal(n).len() >= 1,
        forall|i: int| 0 <= i < decimal(n).len() ==> '0' <= #[trigger] decimal(n)[i] <= '9',
        decimal(n)[0] == '0' ==> n == 0,
        digits_value(decimal(n)) == n,
    decreases n,
{
    reveal_with_fuel(digits_value, 2);
    if n >= 10 {
        decimal_writes_the_number(n / 10);
        let rest = decimal(n / 10);
        assert(decimal(n).drop_last() =~= rest);
        assert(decimal(n)[0] == rest[0]);
        assert forall|i: int| 0 <= i < decimal(n).len() implies '0' <= #[trigger] decimal(n)[i] <= '9' by {
            if i < rest.len() {
                assert(decimal(n)[i] == rest[i]);
            }
        }
    } else {
        assert(decimal(n).drop_last() =~= Seq::empty());
    }
}

/// Texts are ordered by the first place in which they differ; of two of which one begins the
/// other, the shorter comes first.
pub proof fn texts_are_ordered_by_their_first_difference(a: Seq<char>, b: Seq<char>, n: int)
    requires
        0 <= n <= a.len(),
        n <= b.len(),
        a.take(n) == b.take(n),
        n < a.len() && n < b.len() ==> a[n] != b[n],
    ensures
        text_less(a, b) <==> n < b.len() && (n == a.len() || (a[n] as int) < b[n] as int),
    decreases n,
{
    if n > 0 {
        assert(a.take(n)[0] == a[0] && b.take(n)[0] == b[0]);
        assert(a.drop_first().take(n - 1) =~= a.take(n).drop_first());
        assert(b.drop_first().take(n - 1) =~= b.take(n).drop_first());
        texts_are_ordered_by_their_first_difference(a.drop_first(), b.drop_first(), n - 1);
    }
}

/// Numbers with zeros in front have at least the width that was asked for, and read the same.
pub proof fn padding_keeps_the_number(n: nat, width: nat)
    ensures
        padded(n, width).len() >= width,
        padded(n, width).len() == width || padded(n, width) == decimal(n),
        digits_value(padded(n, width)) == n,
{
    decimal_writes_the_number(n);
    let digits = decimal(n);
    if digits.len() < width {
        let zeros = Seq::new((width - digits.len()) as nat, |i: int| '0');
        lemma_zeros_in_front(zeros, digits);
    }
}

proof fn lemma_zeros_in_front(zeros: Seq<char>, digits: Seq<char>)
    requires
        forall|i: int| 0 <= i < zeros.len() ==> #[trigger] zeros[i] == '0',
    ensures
        digits_value(zeros + digits) == digits_value(digits),
    decreases zeros.len() + digits.len(),
{
    let all = zeros + digits;
    if digits.len() > 0 {
        assert(all.drop_last() =~= zeros + digits.drop_last());
        lemma_zeros_in_front(zeros, digits.drop_last());
    } else if zeros.len() > 0 {
        assert(all.drop_last() =~= zeros.drop_last() + digits);
        lemma_zeros_in_front(zeros.drop_last(), digits);
    }
}

/// A number in hexadecimal has as many digits as asked for, the lowest last; ten to fifteen are the
/// letters a to f.
pub proof fn hexadecimal_writes_the_number(n: nat, width: nat)
    ensures
        hexadecimal(n, width).len() == width,
        width > 0 && n % 16 < 10 ==> hexadecimal(n, width).last() as int == '0' as int + n % 16,
        width > 0 && n % 16 >= 10 ==> hexadecimal(n, width).last() as int == 'a' as int + (n % 16 - 10),
        width > 0 ==> hexadecimal(n, width).drop_last() == hexadecimal(n / 16, (width - 1) as nat),
    decreases width,
{
    if width > 0 {
        hexadecimal_writes_the_number(n / 16, (width - 1) as nat);
        assert(hexadecimal(n, width).drop_last() =~= hexadecimal(n / 16, (width - 1) as nat));
    }
}

} // verus!
