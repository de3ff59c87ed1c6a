//! Coordinate and timestamp normalizers.
//!
//! `convert_coordinate` recognises the leading pattern
//! `<degrees> deg <minutes> min <seconds>` of a rendered GPS tag and hands the
//! three numerals back; anything else collapses to the zero coordinate.
//! `convert_altitude` recognises a leading decimal numeral.
//! `convert_time_to_iso_format` accepts exactly `YYYY-MM-DD HH:MM:SS` and
//! renders the same instant with a `+00:00` offset suffix.

use vstd::prelude::*;

verus! {

/// A digit character, `'0'` through `'9'`.
pub open spec fn is_digit(c: char) -> bool {
    48 <= c as int && c as int <= 57
}

/// The numeric value of a digit character.
pub open spec fn digit_val(c: char) -> int {
    c as int - 48
}

/// Length of the run of digit characters at the head of `s`.
pub open spec fn digit_run(s: Seq<char>) -> nat
    decreases s.len(),
{
    if s.len() > 0 && is_digit(s[0]) {
        1 + digit_run(s.drop_first())
    } else {
        0
    }
}

/// `digit_run` counts exactly the leading digits: every position below it is a
/// digit and the position right after it, if any, is not.
pub proof fn lemma_digit_run_bounds(s: Seq<char>)
    ensures
        digit_run(s) <= s.len(),
        forall|i: int| 0 <= i < digit_run(s) ==> is_digit(#[trigger] s[i]),
        digit_run(s) < s.len() ==> !is_digit(s[digit_run(s) as int]),
    decreases s.len(),
{
    if s.len() > 0 && is_digit(s[0]) {
        lemma_digit_run_bounds(s.drop_first());
        assert forall|i: int| 0 <= i < digit_run(s) implies is_digit(#[trigger] s[i]) by {
            if i > 0 {
                assert(s.drop_first()[i - 1] == s[i]);
            }
        }
        if digit_run(s) < s.len() {
            assert(s.drop_first()[digit_run(s) - 1] == s[digit_run(s) as int]);
        }
    }
}

/// A scan that saw `n` leading digits and then a non-digit (or the end of the
/// sequence) has determined `digit_run`.
pub proof fn lemma_digit_run_from_scan(s: Seq<char>, n: int)
    requires
        0 <= n <= s.len(),
        forall|i: int| 0 <= i < n ==> is_digit(#[trigger] s[i]),
        n == s.len() || !is_digit(s[n]),
    ensures
        digit_run(s) == n,
    decreases s.len(),
{
    if n == 0 {
        if s.len() > 0 {
            assert(!is_digit(s[0]));
        }
    } else {
        assert(is_digit(s[0]));
        assert forall|i: int| 0 <= i < n - 1 implies is_digit(#[trigger] s.drop_first()[i]) by {
            assert(s.drop_first()[i] == s[i + 1]);
        }
        if n < s.len() {
            assert(s.drop_first()[n - 1] == s[n]);
        }
        lemma_digit_run_from_scan(s.drop_first(), n - 1);
    }
}

/// Length of the decimal numeral at the head of `s`: a nonempty digit run,
/// optionally continued by a dot and a second nonempty digit run, or a dot
/// followed by a nonempty digit run.  Zero when no numeral starts here.
pub open spec fn decimal_run(s: Seq<char>) -> nat {
    let w = digit_run(s);
    if w > 0 {
        if w < s.len() && s[w as int] == '.' && digit_run(s.skip(w as int + 1)) > 0 {
            w + 1 + digit_run(s.skip(w as int + 1))
        } else {
            w
        }
    } else {
        if s.len() > 1 && s[0] == '.' && digit_run(s.skip(1)) > 0 {
            1 + digit_run(s.skip(1))
        } else {
            0
        }
    }
}

/// The decimal numeral at the head of `s` never runs past its end.
pub proof fn lemma_decimal_run_bounds(s: Seq<char>)
    ensures
        decimal_run(s) <= s.len(),
{
    lemma_digit_run_bounds(s);
    let w = digit_run(s) as int;
    if w > 0 {
        if w < s.len() && s[w] == '.' && digit_run(s.skip(w + 1)) > 0 {
            lemma_digit_run_bounds(s.skip(w + 1));
        }
    } else {
        if s.len() > 1 && s[0] == '.' && digit_run(s.skip(1)) > 0 {
            lemma_digit_run_bounds(s.skip(1));
        }
    }
}

/// Collects the characters of `s` into a vector, in order.
pub fn str_chars(s: &str) -> (v: Vec<char>)
    ensures
        v@ == s@,
{
    let n: usize = s.unicode_len();
    let mut v: Vec<char> = Vec::new();
    let mut i: usize = 0;
    while i < n
        invariant
            i <= n,
            n == s@.len(),
            v@ == s@.subrange(0, i as int),
        decreases n - i,
    {
        v.push(s.get_char(i));
        i = i + 1;
        proof {
            assert(v@ =~= s@.subrange(0, i as int));
        }
    }
    proof {
        assert(v@ =~= s@);
    }
    v
}

/// Whether `c` is a digit character.
pub fn digit_char(c: char) -> (r: bool)
    ensures
        r == is_digit(c),
{
    let n: u32 = c as u32;
    48 <= n && n <= 57
}

/// Returns the first position at or after `from` that does not hold a digit.
fn digit_run_end(chars: &Vec<char>, from: usize) -> (r: usize)
    requires
        from <= chars@.len(),
    ensures
        from <= r <= chars@.len(),
        r - from == digit_run(chars@.skip(from as int)),
{
    let mut i: usize = from;
    while i < chars.len() && digit_char(chars[i])
        invariant
            from <= i <= chars@.len(),
            forall|j: int| from <= j < i ==> is_digit(#[trigger] chars@[j]),
        decreases chars@.len() - i,
    {
        i = i + 1;
    }
    proof {
        let t = chars@.skip(from as int);
        assert forall|j: int| 0 <= j < i - from implies is_digit(#[trigger] t[j]) by {
            assert(t[j] == chars@[from + j]);
        }
        if (i - from) < t.len() {
            assert(t[i - from] == chars@[i as int]);
        }
        lemma_digit_run_from_scan(t, i - from);
    }
    i
}

/// The five characters ` deg ` stand in `s` at position `i`.
pub open spec fn deg_marker_at(s: Seq<char>, i: int) -> bool {
    &&& 0 <= i
    &&& i + 5 <= s.len()
    &&& s[i] == ' '
    &&& s[i + 1] == 'd'
    &&& s[i + 2] == 'e'
    &&& s[i + 3] == 'g'
    &&& s[i + 4] == ' '
}

/// The five characters ` min ` stand in `s` at position `i`.
pub open spec fn min_marker_at(s: Seq<char>, i: int) -> bool {
    &&& 0 <= i
    &&& i + 5 <= s.len()
    &&& s[i] == ' '
    &&& s[i + 1] == 'm'
    &&& s[i + 2] == 'i'
    &&& s[i + 3] == 'n'
    &&& s[i + 4] == ' '
}

/// Position of the minutes numeral, right after the ` deg ` marker.
pub open spec fn coord_minutes_start(s: Seq<char>) -> int {
    digit_run(s) as int + 5
}

/// Position of the seconds numeral, right after the ` min ` marker.
pub open spec fn coord_seconds_start(s: Seq<char>) -> int {
    coord_minutes_start(s) + digit_run(s.skip(coord_minutes_start(s))) + 5
}

/// `s` starts with `<degrees> deg <minutes> min <seconds>`: a digit run, the
/// ` deg ` marker, a digit run, the ` min ` marker, and a decimal numeral.
/// Whatever follows the seconds numeral is ignored.
pub open spec fn coordinate_match(s: Seq<char>) -> bool {
    let d = digit_run(s) as int;
    let m = digit_run(s.skip(d + 5)) as int;
    &&& d > 0
    &&& deg_marker_at(s, d)
    &&& m > 0
    &&& min_marker_at(s, d + 5 + m)
    &&& decimal_run(s.skip(coord_seconds_start(s))) > 0
}

/// The degrees numeral of a matching coordinate rendering.
pub open spec fn coord_degrees(s: Seq<char>) -> Seq<char> {
    s.subrange(0, digit_run(s) as int)
}

/// The minutes numeral of a matching coordinate rendering.
pub open spec fn coord_minutes(s: Seq<char>) -> Seq<char> {
    let start = coord_minutes_start(s);
    s.subrange(start, start + digit_run(s.skip(start)))
}

/// The seconds numeral of a matching coordinate rendering.
pub open spec fn coord_seconds(s: Seq<char>) -> Seq<char> {
    let start = coord_seconds_start(s);
    s.subrange(start, start + decimal_run(s.skip(start)))
}

/// A coordinate as the three numerals of its rendered
/// degrees-minutes-seconds form.  The numeric interpretation (degrees plus
/// minutes over sixty plus seconds over thirty-six hundred) is left to the
/// caller that needs it as a machine float.
#[derive(Debug)]
pub struct DmsCoordinate {
    /// Decimal digits of the whole degrees.
    pub degrees: String,
    /// Decimal digits of the whole minutes.
    pub minutes: String,
    /// Decimal numeral of the seconds, possibly with a fractional part.
    pub seconds: String,
}

/// The zero coordinate: every numeral is `0`.  It stands both for "tag
/// absent" and for "rendering not recognised".
pub open spec fn dms_is_zero(c: DmsCoordinate) -> bool {
    &&& c.degrees@ =~= seq!['0']
    &&& c.minutes@ =~= seq!['0']
    &&& c.seconds@ =~= seq!['0']
}

impl DmsCoordinate {
    /// The zero coordinate.
    pub fn zero() -> (r: DmsCoordinate)
        ensures
            dms_is_zero(r),
    {
        proof {
            reveal_strlit("0");
        }
        DmsCoordinate {
            degrees: String::from_str("0"),
            minutes: String::from_str("0"),
            seconds: String::from_str("0"),
        }
    }

    /// A field-for-field copy.
    pub fn duplicate(&self) -> (r: DmsCoordinate)
        ensures
            r == *self,
    {
        DmsCoordinate {
            degrees: self.degrees.clone(),
            minutes: self.minutes.clone(),
            seconds: self.seconds.clone(),
        }
    }
}

/// Every field of the coordinate is a whole numeral: the degrees and minutes
/// nonempty digit runs, the seconds a nonempty decimal numeral.  A consumer
/// can always read such fields as numbers.
pub open spec fn dms_well_formed(c: DmsCoordinate) -> bool {
    &&& c.degrees@.len() > 0 && digit_run(c.degrees@) == c.degrees@.len()
    &&& c.minutes@.len() > 0 && digit_run(c.minutes@) == c.minutes@.len()
    &&& c.seconds@.len() > 0 && decimal_run(c.seconds@) == c.seconds@.len()
}

/// The decimal numeral at the head of a sequence is, taken by itself, a
/// whole decimal numeral.
pub proof fn lemma_decimal_prefix_self(t: Seq<char>)
    requires
        decimal_run(t) > 0,
    ensures
        decimal_run(t.subrange(0, decimal_run(t) as int)) == decimal_run(t),
{
    lemma_decimal_run_bounds(t);
    lemma_digit_run_bounds(t);
    let w = digit_run(t) as int;
    let k = decimal_run(t) as int;
    let g = t.subrange(0, k);
    if w > 0 {
        if w < t.len() && t[w] == '.' && digit_run(t.skip(w + 1)) > 0 {
            let f = digit_run(t.skip(w + 1)) as int;
            lemma_digit_run_bounds(t.skip(w + 1));
            assert forall|i: int| 0 <= i < w implies is_digit(#[trigger] g[i]) by {
                assert(g[i] == t[i]);
            }
            assert(g[w] == t[w]);
            lemma_digit_run_from_scan(g, w);
            assert forall|i: int| 0 <= i < f implies is_digit(#[trigger] g.skip(w + 1)[i]) by {
                assert(g.skip(w + 1)[i] == t[w + 1 + i]);
                assert(t.skip(w + 1)[i] == t[w + 1 + i]);
            }
            assert(g.skip(w + 1).len() == f);
            lemma_digit_run_from_scan(g.skip(w + 1), f);
        } else {
            assert forall|i: int| 0 <= i < w implies is_digit(#[trigger] g[i]) by {
                assert(g[i] == t[i]);
            }
            lemma_digit_run_from_scan(g, w);
        }
    } else {
        let f = digit_run(t.skip(1)) as int;
        lemma_digit_run_bounds(t.skip(1));
        assert(g[0] == t[0]);
        assert forall|i: int| 0 <= i < f implies is_digit(#[trigger] g.skip(1)[i]) by {
            assert(g.skip(1)[i] == t[1 + i]);
            assert(t.skip(1)[i] == t[1 + i]);
        }
        assert(g.skip(1).len() == f);
        lemma_digit_run_from_scan(g.skip(1), f);
        assert(digit_run(g) == 0);
    }
}

/// `c` is what converting the rendering `raw` yields: its three numerals
/// where `raw` matches the coordinate pattern, the zero coordinate otherwise.
pub open spec fn converted_coordinate(raw: Seq<char>, c: DmsCoordinate) -> bool {
    if coordinate_match(raw) {
        &&& c.degrees@ == coord_degrees(raw)
        &&& c.minutes@ == coord_minutes(raw)
        &&& c.seconds@ == coord_seconds(raw)
    } else {
        dms_is_zero(c)
    }
}

/// Recognises `<degrees> deg <minutes> min <seconds>` at the start of a
/// rendered GPS tag and returns the three numerals; any other input,
/// including a partially formed one, collapses to the zero coordinate.
/// Trailing text such as ` sec N` is never consulted, so the hemisphere
/// letter does not affect the result.
#[verifier::rlimit(50)]
pub fn convert_coordinate(raw: &str) -> (r: DmsCoordinate)
    ensures
        converted_coordinate(raw@, r),
{
    let chars = str_chars(raw);
    let _len: usize = chars.len();
    proof {
        assert(chars@.skip(0) =~= raw@);
    }
    let d = digit_run_end(&chars, 0);
    if d == 0 || !marker_at(&chars, d, 'd', 'e', 'g') {
        proof {
            assert(!coordinate_match(raw@));
        }
        return DmsCoordinate::zero();
    }
    let m_end = digit_run_end(&chars, d + 5);
    if m_end == d + 5 || !marker_at(&chars, m_end, 'm', 'i', 'n') {
        proof {
            assert(!coordinate_match(raw@));
        }
        return DmsCoordinate::zero();
    }
    let sec_start = m_end + 5;
    let k = decimal_run_end(&chars, sec_start);
    proof {
        assert(coord_minutes_start(raw@) == d + 5);
        assert(coord_seconds_start(raw@) == sec_start as int);
    }
    if k == sec_start {
        proof {
            assert(!coordinate_match(raw@));
        }
        return DmsCoordinate::zero();
    }
    proof {
        assert(coordinate_match(raw@));
    }
    DmsCoordinate {
        degrees: String::from_str(raw.substring_char(0, d)),
        minutes: String::from_str(raw.substring_char(d + 5, m_end)),
        seconds: String::from_str(raw.substring_char(sec_start, k)),
    }
}

/// Whether the five characters at `at` are a space, the three given letters,
/// and a space.
fn marker_at(chars: &Vec<char>, at: usize, l1: char, l2: char, l3: char) -> (r: bool)
    requires
        at <= chars@.len(),
    ensures
        r == (at + 5 <= chars@.len() && chars@[at as int] == ' ' && chars@[at as int + 1] == l1
            && chars@[at as int + 2] == l2 && chars@[at as int + 3] == l3 && chars@[at as int + 4]
            == ' '),
{
    if chars.len() < 5 || at > chars.len() - 5 {
        return false;
    }
    chars[at] == ' ' && chars[at + 1] == l1 && chars[at + 2] == l2 && chars[at + 3] == l3
        && chars[at + 4] == ' '
}

/// Returns the end of the decimal numeral that starts at `from`, or `from`
/// itself when none starts there.
fn decimal_run_end(chars: &Vec<char>, from: usize) -> (r: usize)
    requires
        from <= chars@.len(),
    ensures
        from <= r <= chars@.len(),
        r - from == decimal_run(chars@.skip(from as int)),
{
    let ghost t = chars@.skip(from as int);
    let w = digit_run_end(chars, from);
    if w > from {
        if w < chars.len() && chars[w] == '.' {
            proof {
                assert(t[w - from] == chars@[w as int]);
                assert(t.skip(w - from + 1) =~= chars@.skip(w as int + 1));
            }
            let f = digit_run_end(chars, w + 1);
            if f > w + 1 {
                f
            } else {
                w
            }
        } else {
            w
        }
    } else {
        if chars.len() - from > 1 && chars[from] == '.' {
            proof {
                assert(t[0] == chars@[from as int]);
                assert(t.skip(1) =~= chars@.skip(from as int + 1));
            }
            let f = digit_run_end(chars, from + 1);
            if f > from + 1 {
                f
            } else {
                from
            }
        } else {
            from
        }
    }
}

/// Recognises the leading decimal numeral of an altitude rendering such as
/// `27.813 meters above sea level` and returns its text; `None` when the
/// input does not start with a numeral, which callers treat as "leave the
/// previous value unchanged".
pub fn convert_altitude(raw: &str) -> (r: Option<String>)
    ensures
        decimal_run(raw@) > 0 <==> r is Some,
        r matches Some(t) ==> t@ == raw@.subrange(0, decimal_run(raw@) as int),
{
    let chars = str_chars(raw);
    proof {
        assert(chars@.skip(0) =~= raw@);
    }
    let k = decimal_run_end(&chars, 0);
    if k == 0 {
        None
    } else {
        Some(String::from_str(raw.substring_char(0, k)))
    }
}

/// Whatever the rendering, the converted coordinate is well formed: each of
/// its fields is a whole numeral that a consumer can read as a number.
pub proof fn lemma_converted_coordinate_well_formed(raw: Seq<char>, c: DmsCoordinate)
    requires
        converted_coordinate(raw, c),
    ensures
        dms_well_formed(c),
{
    if coordinate_match(raw) {
        lemma_digit_run_bounds(raw);
        let d = digit_run(raw) as int;
        let gd = coord_degrees(raw);
        assert forall|i: int| 0 <= i < d implies is_digit(#[trigger] gd[i]) by {
            assert(gd[i] == raw[i]);
        }
        lemma_digit_run_from_scan(gd, d);
        let start = coord_minutes_start(raw);
        lemma_digit_run_bounds(raw.skip(start));
        let m = digit_run(raw.skip(start)) as int;
        let gm = coord_minutes(raw);
        assert forall|i: int| 0 <= i < m implies is_digit(#[trigger] gm[i]) by {
            assert(gm[i] == raw[start + i]);
            assert(raw.skip(start)[i] == raw[start + i]);
        }
        assert(gm.len() == m);
        lemma_digit_run_from_scan(gm, m);
        let p = coord_seconds_start(raw);
        lemma_decimal_run_bounds(raw.skip(p));
        lemma_decimal_prefix_self(raw.skip(p));
        assert(coord_seconds(raw) =~= raw.skip(p).subrange(
            0,
            decimal_run(raw.skip(p)) as int,
        ));
    } else {
        reveal_with_fuel(digit_run, 2);
        assert(seq!['0'].drop_first() =~= Seq::<char>::empty());
        assert(digit_run(seq!['0']) == 1);
    }
}

/// A matching coordinate rendering decomposes exactly as the three parsed
/// numerals read back: it starts with the degrees digits, the ` deg `
/// marker, the minutes digits, the ` min ` marker and the seconds numeral,
/// and the degrees and minutes are made of digits alone.
pub proof fn lemma_coordinate_decomposes(s: Seq<char>)
    requires
        coordinate_match(s),
    ensures
        s.subrange(0, coord_seconds_start(s) + decimal_run(s.skip(coord_seconds_start(s))))
            == coord_degrees(s) + seq![' ', 'd', 'e', 'g', ' '] + coord_minutes(s) + seq![
            ' ',
            'm',
            'i',
            'n',
            ' ',
        ] + coord_seconds(s),
        coord_degrees(s).len() > 0,
        forall|i: int| 0 <= i < coord_degrees(s).len() ==> is_digit(#[trigger] coord_degrees(s)[i]),
        coord_minutes(s).len() > 0,
        forall|i: int| 0 <= i < coord_minutes(s).len() ==> is_digit(#[trigger] coord_minutes(s)[i]),
        coord_seconds(s).len() > 0,
{
    lemma_digit_run_bounds(s);
    lemma_digit_run_bounds(s.skip(coord_minutes_start(s)));
    let d = digit_run(s) as int;
    let m = digit_run(s.skip(d + 5)) as int;
    let k = decimal_run(s.skip(coord_seconds_start(s))) as int;
    lemma_decimal_run_bounds(s.skip(coord_seconds_start(s)));
    assert(s.subrange(0, coord_seconds_start(s) + k) =~= coord_degrees(s) + seq![
        ' ',
        'd',
        'e',
        'g',
        ' ',
    ] + coord_minutes(s) + seq![' ', 'm', 'i', 'n', ' '] + coord_seconds(s));
}

/// A valid timestamp and its zoned rendering name the same instant: the date
/// and time digits carry over unchanged, joined by a `T` in place of the
/// space, and only the fixed `+00:00` offset is appended.
pub proof fn lemma_timestamp_same_instant(s: Seq<char>)
    requires
        valid_timestamp(s),
    ensures
        iso_of(s).len() == 25,
        iso_of(s).subrange(0, 10) == s.subrange(0, 10),
        iso_of(s)[10] == 'T',
        iso_of(s).subrange(11, 19) == s.subrange(11, 19),
        iso_of(s).subrange(19, 25) == seq!['+', '0', '0', ':', '0', '0'],
{
    assert(iso_of(s).subrange(0, 10) =~= s.subrange(0, 10));
    assert(iso_of(s).subrange(11, 19) =~= s.subrange(11, 19));
    assert(iso_of(s).subrange(19, 25) =~= seq!['+', '0', '0', ':', '0', '0']);
}

/// Value of the two-digit numeral at position `i`.
pub open spec fn two_digit_val(s: Seq<char>, i: int) -> int {
    10 * digit_val(s[i]) + digit_val(s[i + 1])
}

/// Value of the four-digit numeral at position `i`.
pub open spec fn four_digit_val(s: Seq<char>, i: int) -> int {
    1000 * digit_val(s[i]) + 100 * digit_val(s[i + 1]) + 10 * digit_val(s[i + 2]) + digit_val(
        s[i + 3],
    )
}

/// A leap year of the proleptic Gregorian calendar.
pub open spec fn is_leap_year(y: int) -> bool {
    y % 4 == 0 && (y % 100 != 0 || y % 400 == 0)
}

/// Number of days in month `m` of year `y`.
pub open spec fn days_in_month(y: int, m: int) -> int {
    if m == 2 {
        if is_leap_year(y) {
            29
        } else {
            28
        }
    } else if m == 4 || m == 6 || m == 9 || m == 11 {
        30
    } else {
        31
    }
}

/// Digit characters stand at every numeral position of `YYYY-MM-DD HH:MM:SS`.
pub open spec fn timestamp_digits(s: Seq<char>) -> bool {
    &&& is_digit(s[0]) && is_digit(s[1]) && is_digit(s[2]) && is_digit(s[3])
    &&& is_digit(s[5]) && is_digit(s[6])
    &&& is_digit(s[8]) && is_digit(s[9])
    &&& is_digit(s[11]) && is_digit(s[12])
    &&& is_digit(s[14]) && is_digit(s[15])
    &&& is_digit(s[17]) && is_digit(s[18])
}

/// `s` is exactly `YYYY-MM-DD HH:MM:SS` and names a real instant: the month,
/// the day of that month and year, the hour, the minute and the second are
/// all in range.  A second of `60` is accepted: it renders a leap second.
pub open spec fn valid_timestamp(s: Seq<char>) -> bool {
    &&& s.len() == 19
    &&& timestamp_digits(s)
    &&& s[4] == '-' && s[7] == '-' && s[10] == ' ' && s[13] == ':' && s[16] == ':'
    &&& 1 <= two_digit_val(s, 5) <= 12
    &&& 1 <= two_digit_val(s, 8) <= days_in_month(four_digit_val(s, 0), two_digit_val(s, 5))
    &&& two_digit_val(s, 11) <= 23
    &&& two_digit_val(s, 14) <= 59
    &&& two_digit_val(s, 17) <= 60
}

/// The instant of a valid timestamp rendered with a zone: the date, a `T`,
/// the time, and the `+00:00` offset.
pub open spec fn iso_of(s: Seq<char>) -> Seq<char> {
    s.subrange(0, 10) + seq!['T'] + s.subrange(11, 19) + seq!['+', '0', '0', ':', '0', '0']
}

/// Value of the two-digit numeral at position `i`.
fn two_digit(chars: &Vec<char>, i: usize) -> (r: u32)
    requires
        i + 1 < chars@.len(),
        is_digit(chars@[i as int]),
        is_digit(chars@[i as int + 1]),
    ensures
        r == two_digit_val(chars@, i as int),
{
    let _len: usize = chars.len();
    10 * (chars[i] as u32 - 48) + (chars[i + 1] as u32 - 48)
}

/// Value of the four-digit numeral at position `i`.
fn four_digit(chars: &Vec<char>, i: usize) -> (r: u32)
    requires
        i + 3 < chars@.len(),
        is_digit(chars@[i as int]),
        is_digit(chars@[i as int + 1]),
        is_digit(chars@[i as int + 2]),
        is_digit(chars@[i as int + 3]),
    ensures
        r == four_digit_val(chars@, i as int),
{
    let _len: usize = chars.len();
    1000 * (chars[i] as u32 - 48) + 100 * (chars[i + 1] as u32 - 48) + 10 * (chars[i + 2] as u32
        - 48) + (chars[i + 3] as u32 - 48)
}

/// Number of days in month `m` of year `y`.
fn month_days(y: u32, m: u32) -> (r: u32)
    requires
        1 <= m <= 12,
    ensures
        r == days_in_month(y as int, m as int),
{
    if m == 2 {
        if y % 4 == 0 && (y % 100 != 0 || y % 400 == 0) {
            29
        } else {
            28
        }
    } else if m == 4 || m == 6 || m == 9 || m == 11 {
        30
    } else {
        31
    }
}

/// Parses exactly `YYYY-MM-DD HH:MM:SS` as a zone-less instant — a leap
/// second, `SS` of `60`, included — attaches the zero offset, and renders it
/// as `YYYY-MM-DDTHH:MM:SS+00:00`.  Any input that is not of this exact
/// shape, or whose fields name no real instant, is a parse failure: the
/// caller must not proceed with the value.
pub fn convert_time_to_iso_format(tmstmp: &str) -> (r: Option<String>)
    ensures
        r is Some <==> valid_timestamp(tmstmp@),
        r matches Some(out) ==> out@ == iso_of(tmstmp@),
{
    let chars = str_chars(tmstmp);
    if chars.len() != 19 {
        return None;
    }
    if !(chars[4] == '-' && chars[7] == '-' && chars[10] == ' ' && chars[13] == ':' && chars[16]
        == ':') {
        return None;
    }
    if !(digit_char(chars[0]) && digit_char(chars[1]) && digit_char(chars[2]) && digit_char(
        chars[3],
    ) && digit_char(chars[5]) && digit_char(chars[6]) && digit_char(chars[8]) && digit_char(
        chars[9],
    ) && digit_char(chars[11]) && digit_char(chars[12]) && digit_char(chars[14]) && digit_char(
        chars[15],
    ) && digit_char(chars[17]) && digit_char(chars[18])) {
        return None;
    }
    let year = four_digit(&chars, 0);
    let month = two_digit(&chars, 5);
    if month < 1 || month > 12 {
        return None;
    }
    let day = two_digit(&chars, 8);
    if day < 1 || day > month_days(year, month) {
        return None;
    }
    if two_digit(&chars, 11) > 23 || two_digit(&chars, 14) > 59 || two_digit(&chars, 17) > 60 {
        return None;
    }
    let mut out = String::from_str(tmstmp.substring_char(0, 10));
    out.append("T");
    out.append(tmstmp.substring_char(11, 19));
    out.append("+00:00");
    proof {
        reveal_strlit("T");
        reveal_strlit("+00:00");
        assert(out@ =~= iso_of(tmstmp@));
    }
    Some(out)
}

} // verus!
