//! The T-Code protocol codec: parsing the axis table a device sends during
//! discovery, and rendering movement commands as wire lines.

use vstd::prelude::*;

use crate::axis::{spec_kind_of_tcode_name, AxisDescriptor, AxisId};
use crate::movement::Movement;
use crate::vecmap::{spec_lookup, VecMap};

verus! {

/// The character for one decimal digit value.
pub open spec fn digit_char(d: int) -> char {
    if d == 0 {
        '0'
    } else if d == 1 {
        '1'
    } else if d == 2 {
        '2'
    } else if d == 3 {
        '3'
    } else if d == 4 {
        '4'
    } else if d == 5 {
        '5'
    } else if d == 6 {
        '6'
    } else if d == 7 {
        '7'
    } else if d == 8 {
        '8'
    } else {
        '9'
    }
}

/// Decimal digits of `n`, most significant first, without padding.
pub open spec fn spec_dec_digits(n: int) -> Seq<char>
    decreases n,
{
    if n < 10 {
        seq![digit_char(n)]
    } else {
        spec_dec_digits(n / 10).push(digit_char(n % 10))
    }
}

/// `n` rendered as exactly four decimal digits, zero-padded (for `n <= 9999`).
pub open spec fn spec_digits4(n: int) -> Seq<char> {
    seq![
        digit_char(n / 1000),
        digit_char((n / 100) % 10),
        digit_char((n / 10) % 10),
        digit_char(n % 10),
    ]
}

/// `n` rendered in decimal, zero-padded on the left to at least four digits.
pub open spec fn spec_dec_min4(n: int) -> Seq<char> {
    if n < 10000 {
        spec_digits4(n)
    } else {
        spec_dec_digits(n)
    }
}

/// Appends the single digit `d` to `s`.
fn push_digit(s: &mut String, d: u32)
    requires
        d < 10,
    ensures
        final(s)@ == old(s)@.push(digit_char(d as int)),
{
    proof {
        reveal_strlit("0");
        reveal_strlit("1");
        reveal_strlit("2");
        reveal_strlit("3");
        reveal_strlit("4");
        reveal_strlit("5");
        reveal_strlit("6");
        reveal_strlit("7");
        reveal_strlit("8");
        reveal_strlit("9");
    }
    let ghost before = s@;
    match d {
        0 => s.append("0"),
        1 => s.append("1"),
        2 => s.append("2"),
        3 => s.append("3"),
        4 => s.append("4"),
        5 => s.append("5"),
        6 => s.append("6"),
        7 => s.append("7"),
        8 => s.append("8"),
        _ => s.append("9"),
    }
    assert(s@ =~= before.push(digit_char(d as int)));
}

/// Appends `n` as exactly four zero-padded decimal digits.
fn push_digits4(s: &mut String, n: u32)
    requires
        n <= 9999,
    ensures
        final(s)@ == old(s)@ + spec_digits4(n as int),
{
    push_digit(s, n / 1000);
    push_digit(s, (n / 100) % 10);
    push_digit(s, (n / 10) % 10);
    push_digit(s, n % 10);
    assert(s@ =~= old(s)@ + spec_digits4(n as int));
}

/// Appends the decimal digits of `n`, most significant first.
fn push_dec(s: &mut String, n: u32)
    ensures
        final(s)@ == old(s)@ + spec_dec_digits(n as int),
    decreases n,
{
    if n < 10 {
        push_digit(s, n);
        assert(s@ =~= old(s)@ + spec_dec_digits(n as int));
    } else {
        push_dec(s, n / 10);
        push_digit(s, n % 10);
        assert(s@ =~= old(s)@ + spec_dec_digits(n as int));
    }
}

/// Appends `n` in decimal, zero-padded to at least four digits.
fn push_dec_min4(s: &mut String, n: u32)
    ensures
        final(s)@ == old(s)@ + spec_dec_min4(n as int),
{
    if n <= 9999 {
        push_digits4(s, n);
    } else {
        push_dec(s, n);
    }
}

/// Whether `c` is a decimal digit.
pub open spec fn is_dec_digit(c: char) -> bool {
    48 <= c as int <= 57
}

/// Whether every character of `s` is a decimal digit.
pub open spec fn all_dec_digits(s: Seq<char>) -> bool {
    forall|i: int| 0 <= i < s.len() ==> is_dec_digit(#[trigger] s[i])
}

/// The value of a string of decimal digits.
pub open spec fn spec_dec_value(s: Seq<char>) -> int
    decreases s.len(),
{
    if s.len() == 0 {
        0
    } else {
        spec_dec_value(s.drop_last()) * 10 + (s.last() as int - 48)
    }
}

/// What parsing a decimal `u16` yields: the number, or `None` where the
/// string is empty, holds a non-digit, or overflows.
pub open spec fn spec_parse_u16(s: Seq<char>) -> Option<u16> {
    if s.len() == 0 || !all_dec_digits(s) {
        None
    } else if spec_dec_value(s) > 65535 {
        None
    } else {
        Some(spec_dec_value(s) as u16)
    }
}

proof fn lemma_dec_value_take_step(s: Seq<char>, i: int)
    requires
        0 <= i < s.len(),
    ensures
        spec_dec_value(s.take(i + 1)) == spec_dec_value(s.take(i)) * 10 + (s[i] as int - 48),
{
    assert(s.take(i + 1).drop_last() =~= s.take(i));
    assert(s.take(i + 1).last() == s[i]);
}

/// Once a digit prefix exceeds `u16`, every longer digit prefix does too.
proof fn lemma_dec_value_grows(s: Seq<char>, i: int)
    requires
        0 <= i <= s.len(),
        all_dec_digits(s),
        spec_dec_value(s.take(i)) > 65535,
    ensures
        spec_dec_value(s) > 65535,
    decreases s.len() - i,
{
    if i == s.len() {
        assert(s.take(i) =~= s);
    } else {
        lemma_dec_value_take_step(s, i);
        assert(all_dec_digits(s.take(i + 1))) by {
            assert(forall|j: int|
                0 <= j < i + 1 ==> s.take(i + 1)[j] == #[trigger] s[j]);
        }
        assert(spec_dec_value(s.take(i + 1)) > 65535);
        lemma_dec_value_grows(s, i + 1);
    }
}

/// Parses `s` as a decimal `u16`, accepting digits only.
fn parse_u16(s: &str) -> (r: Option<u16>)
    ensures
        r == spec_parse_u16(s@),
{
    let len = s.unicode_len();
    if len == 0 {
        return None;
    }
    let mut acc: u32 = 0;
    let mut i: usize = 0;
    while i < len
        invariant
            0 <= i <= len,
            len == s@.len(),
            all_dec_digits(s@.take(i as int)),
            acc == spec_dec_value(s@.take(i as int)),
            acc <= 65535,
        decreases len - i,
    {
        let c = s.get_char(i);
        let cv = c as u32;
        if cv < 48 || cv > 57 {
            assert(!all_dec_digits(s@));
            return None;
        }
        proof {
            lemma_dec_value_take_step(s@, i as int);
            assert(all_dec_digits(s@.take(i as int + 1))) by {
                assert(forall|j: int|
                    0 <= j < i as int + 1 ==> s@.take(i as int + 1)[j] == #[trigger] s@[j]);
            }
        }
        acc = acc * 10 + (cv - 48);
        i += 1;
        if acc > 65535 {
            proof {
                if all_dec_digits(s@) {
                    lemma_dec_value_grows(s@, i as int);
                }
            }
            return None;
        }
    }
    proof {
        assert(s@.take(len as int) =~= s@);
    }
    Some(acc as u16)
}

/// The fields of `s` split at every single space character; empty fields
/// are kept, so the result always has one more field than `s` has spaces.
pub open spec fn spec_split_spaces(s: Seq<char>) -> Seq<Seq<char>>
    decreases s.len(),
{
    if s.len() == 0 {
        seq![Seq::empty()]
    } else if s[0] == ' ' {
        seq![Seq::<char>::empty()] + spec_split_spaces(s.drop_first())
    } else {
        let rest = spec_split_spaces(s.drop_first());
        seq![seq![s[0]] + rest[0]] + rest.drop_first()
    }
}

proof fn lemma_split_spaces_len(s: Seq<char>)
    ensures
        spec_split_spaces(s).len() >= 1,
    decreases s.len(),
{
    if s.len() > 0 {
        lemma_split_spaces_len(s.drop_first());
    }
}

/// A string without spaces is a single field.
proof fn lemma_split_no_space(s: Seq<char>)
    requires
        forall|i: int| 0 <= i < s.len() ==> #[trigger] s[i] != ' ',
    ensures
        spec_split_spaces(s) =~~= seq![s],
    decreases s.len(),
{
    if s.len() > 0 {
        lemma_split_no_space(s.drop_first());
        assert(spec_split_spaces(s) =~~= seq![seq![s[0]] + s.drop_first()]);
        assert(seq![s[0]] + s.drop_first() =~= s);
    }
}

/// Splitting at the first space: the part before it is the first field.
proof fn lemma_split_at_first_space(s: Seq<char>, i: int)
    requires
        0 <= i < s.len(),
        s[i] == ' ',
        forall|j: int| 0 <= j < i ==> #[trigger] s[j] != ' ',
    ensures
        spec_split_spaces(s) =~~= seq![s.take(i)] + spec_split_spaces(s.skip(i + 1)),
    decreases i,
{
    if i == 0 {
        assert(s.take(0) =~= Seq::<char>::empty());
        assert(s.drop_first() =~= s.skip(1));
    } else {
        let t = s.drop_first();
        lemma_split_at_first_space(t, i - 1);
        lemma_split_spaces_len(t.skip(i));
        assert(t.take(i - 1) =~= s.take(i).drop_first());
        assert(t.skip(i) =~= s.skip(i + 1));
        assert(spec_split_spaces(s) =~~= seq![seq![s[0]] + t.take(i - 1)] + spec_split_spaces(
            t.skip(i),
        ));
        assert(seq![s[0]] + t.take(i - 1) =~= s.take(i));
    }
}

/// The views of a sequence of string slices.
pub open spec fn views_of(fields: Seq<&str>) -> Seq<Seq<char>> {
    fields.map_values(|f: &str| f@)
}

/// Splits `s` at every single space character, keeping empty fields.
fn split_spaces<'a>(s: &'a str) -> (fields: Vec<&'a str>)
    ensures
        views_of(fields@) == spec_split_spaces(s@),
{
    let len = s.unicode_len();
    let mut fields: Vec<&'a str> = Vec::new();
    let mut start: usize = 0;
    let mut i: usize = 0;
    proof {
        assert(s@.skip(0) =~= s@);
        assert(views_of(fields@) =~= Seq::<Seq<char>>::empty());
    }
    while i < len
        invariant
            0 <= start <= i <= len,
            len == s@.len(),
            forall|j: int| start <= j < i ==> #[trigger] s@[j] != ' ',
            spec_split_spaces(s@) =~~= views_of(fields@) + spec_split_spaces(
                s@.skip(start as int),
            ),
        decreases len - i,
    {
        let c = s.get_char(i);
        if c == ' ' {
            let field = s.substring_char(start, i);
            proof {
                let tail = s@.skip(start as int);
                assert(tail[i - start] == ' ');
                assert(forall|j: int|
                    0 <= j < i - start ==> #[trigger] tail[j] == s@[j + start]);
                lemma_split_at_first_space(tail, i - start);
                assert(tail.take(i - start) =~= s@.subrange(start as int, i as int));
                assert(tail.skip(i - start + 1) =~= s@.skip(i + 1));
            }
            fields.push(field);
            proof {
                assert(views_of(fields@) =~= views_of(fields@.drop_last()).push(field@));
            }
            start = i + 1;
        }
        i += 1;
    }
    let field = s.substring_char(start, len);
    proof {
        lemma_split_no_space(s@.skip(start as int));
    }
    fields.push(field);
    proof {
        assert(views_of(fields@) =~= views_of(fields@.drop_last()).push(field@));
        assert(views_of(fields@) =~~= spec_split_spaces(s@));
    }
    fields
}

/// One line of the axis-enumeration response, parsed:
/// `<axis-name> <preferred-min> <preferred-max> <human-name>`.
#[derive(Clone, Debug)]
pub struct DiscoveredAxisInfo {
    /// The two-character wire name of the axis.
    pub tcode_axis_name: String,
    /// The device-preferred minimum, in wire units.
    pub preferred_min: u16,
    /// The device-preferred maximum, in wire units.
    pub preferred_max: u16,
    /// The human-readable name the device reports.
    pub identified_name: String,
}

impl DiscoveredAxisInfo {
    /// The fields as specifications see them.
    pub open spec fn view(self) -> (Seq<char>, u16, u16, Seq<char>) {
        (self.tcode_axis_name@, self.preferred_min, self.preferred_max, self.identified_name@)
    }
}

/// Why an axis-enumeration line was rejected.
#[derive(Copy, Clone, Debug, PartialEq, Eq, Structural)]
pub enum AxisLineParseError {
    /// Fewer than four space-separated fields.
    NotEnoughFields,
    /// The second field is not a decimal `u16`.
    BadPreferredMin,
    /// The third field is not a decimal `u16`.
    BadPreferredMax,
}

/// What parsing an axis-enumeration line yields: the line splits at single
/// spaces into at least four fields; the second and third must be decimal
/// numbers; the first is the wire name and the fourth the human name (any
/// further fields are ignored).
pub open spec fn spec_parse_axis_line(line: Seq<char>) -> Result<
    (Seq<char>, u16, u16, Seq<char>),
    AxisLineParseError,
> {
    let fields = spec_split_spaces(line);
    if fields.len() < 4 {
        Err(AxisLineParseError::NotEnoughFields)
    } else {
        match spec_parse_u16(fields[1]) {
            None => Err(AxisLineParseError::BadPreferredMin),
            Some(mn) => match spec_parse_u16(fields[2]) {
                None => Err(AxisLineParseError::BadPreferredMax),
                Some(mx) => Ok((fields[0], mn, mx, fields[3])),
            },
        }
    }
}

impl DiscoveredAxisInfo {
    /// Parses one line of the axis-enumeration response.
    pub fn parse_line(line: &str) -> (r: Result<DiscoveredAxisInfo, AxisLineParseError>)
        ensures
            match r {
                Ok(info) => spec_parse_axis_line(line@) == Ok::<_, AxisLineParseError>(info@),
                Err(e) => spec_parse_axis_line(line@) == Err::<
                    (Seq<char>, u16, u16, Seq<char>),
                    _,
                >(e),
            },
    {
        let fields = split_spaces(line);
        if fields.len() < 4 {
            return Err(AxisLineParseError::NotEnoughFields);
        }
        let preferred_min = match parse_u16(fields[1]) {
            Some(mn) => mn,
            None => {
                return Err(AxisLineParseError::BadPreferredMin);
            },
        };
        let preferred_max = match parse_u16(fields[2]) {
            Some(mx) => mx,
            None => {
                return Err(AxisLineParseError::BadPreferredMax);
            },
        };
        Ok(
            DiscoveredAxisInfo {
                tcode_axis_name: fields[0].to_owned(),
                preferred_min,
                preferred_max,
                identified_name: fields[3].to_owned(),
            },
        )
    }
}

/// The axis table a session builds while reading the enumeration response:
/// line number (which becomes the axis id) to parsed line, for the lines
/// that parsed.
pub open spec fn spec_axis_table(lines: Seq<Seq<char>>, next_id: int) -> Seq<
    (u32, (Seq<char>, u16, u16, Seq<char>)),
>
    decreases lines.len(),
{
    if lines.len() == 0 {
        Seq::empty()
    } else {
        let rest = spec_axis_table(lines.drop_first(), next_id + 1);
        match spec_parse_axis_line(lines[0]) {
            Ok(t) => seq![(next_id as u32, t)] + rest,
            Err(_) => rest,
        }
    }
}

/// The views of the entries of an axis map.
pub open spec fn axis_map_view(s: Seq<(u32, DiscoveredAxisInfo)>) -> Seq<
    (u32, (Seq<char>, u16, u16, Seq<char>)),
> {
    s.map_values(|e: (u32, DiscoveredAxisInfo)| (e.0, e.1@))
}

/// Builds the axis table from the enumeration response lines, one candidate
/// axis id per line: lines that fail to parse are skipped, but still use up
/// their id.
pub fn build_axis_map(lines: &Vec<String>) -> (r: VecMap<DiscoveredAxisInfo>)
    requires
        lines@.len() <= u32::MAX,
    ensures
        r.wf(),
        axis_map_view(r.view()) == spec_axis_table(
            lines@.map_values(|l: String| l@),
            0,
        ),
{
    let ghost lviews = lines@.map_values(|l: String| l@);
    let mut map: VecMap<DiscoveredAxisInfo> = VecMap::new();
    let n = lines.len();
    let mut i: usize = 0;
    proof {
        assert(lviews.skip(0) =~= lviews);
        assert(axis_map_view(map.view()) =~= Seq::empty());
    }
    while i < n
        invariant
            0 <= i <= n,
            n == lines@.len(),
            n <= u32::MAX,
            lviews == lines@.map_values(|l: String| l@),
            map.wf(),
            forall|j: int| 0 <= j < map.view().len() ==> (#[trigger] map.view()[j]).0 < i,
            spec_axis_table(lviews, 0) =~~= axis_map_view(map.view()) + spec_axis_table(
                lviews.skip(i as int),
                i as int,
            ),
        decreases n - i,
    {
        proof {
            assert(lviews.skip(i as int).drop_first() =~= lviews.skip(i as int + 1));
            assert(lviews.skip(i as int)[0] == lines@[i as int]@);
        }
        match DiscoveredAxisInfo::parse_line(lines[i].as_str()) {
            Ok(info) => {
                map.push_back(i as u32, info);
                proof {
                    assert(axis_map_view(map.view()) =~= axis_map_view(
                        map.view().drop_last(),
                    ).push((i as u32, info@)));
                }
            },
            Err(_) => {},
        }
        i += 1;
    }
    proof {
        assert(lviews.skip(n as int) =~= Seq::<Seq<char>>::empty());
        assert(spec_axis_table(lviews, 0) =~~= axis_map_view(map.view()));
    }
    map
}

/// The axis descriptors an axis table gives rise to: each entry whose wire
/// name is a known T-Code axis name becomes a descriptor; the others are
/// dropped.
pub open spec fn spec_axes_of_table(s: Seq<(u32, DiscoveredAxisInfo)>) -> Seq<AxisDescriptor>
    decreases s.len(),
{
    if s.len() == 0 {
        Seq::empty()
    } else {
        let rest = spec_axes_of_table(s.drop_first());
        match spec_kind_of_tcode_name(s[0].1.tcode_axis_name@) {
            Some(kind) => seq![
                AxisDescriptor { axis_id: AxisId(s[0].0), axis_kind: kind },
            ] + rest,
            None => rest,
        }
    }
}

/// Lists the axes of an axis table in ascending id order, skipping entries
/// whose wire name is not a recognised T-Code axis name.
pub fn axes_from_map(map: &VecMap<DiscoveredAxisInfo>) -> (r: Vec<AxisDescriptor>)
    ensures
        r@ == spec_axes_of_table(map.view()),
{
    let mut r: Vec<AxisDescriptor> = Vec::new();
    let n = map.len();
    let mut i: usize = 0;
    proof {
        assert(map.view().skip(0) =~= map.view());
    }
    while i < n
        invariant
            0 <= i <= n,
            n == map.view().len(),
            spec_axes_of_table(map.view()) =~~= r@ + spec_axes_of_table(
                map.view().skip(i as int),
            ),
        decreases n - i,
    {
        proof {
            assert(map.view().skip(i as int).drop_first() =~= map.view().skip(i as int + 1));
            assert(map.view().skip(i as int)[0] == map.view()[i as int]);
        }
        let entry = map.entry_at(i);
        let id = entry.0;
        match crate::axis::AxisKind::try_from_tcode_axis_name(entry.1.tcode_axis_name.as_str()) {
            Ok(kind) => {
                r.push(AxisDescriptor { axis_id: AxisId(id), axis_kind: kind });
            },
            Err(_) => {},
        }
        i += 1;
    }
    proof {
        assert(map.view().skip(n as int) =~= Seq::<(u32, DiscoveredAxisInfo)>::empty());
        assert(r@ =~= spec_axes_of_table(map.view()));
    }
    r
}

/// Error of [`movement_to_tcode`]: the movement addresses an axis the
/// discovery map does not know.
#[derive(Copy, Clone, Debug, PartialEq, Eq, Structural)]
pub struct NoSuchAxis {}

/// The wire line for a movement: the axis name, the target as four digits
/// (the position truncated to ten-thousandths of full scale, capped at
/// 9999), the letter `I`, and the ramp time in milliseconds, zero-padded to
/// at least four digits.
pub open spec fn spec_tcode_line(name: Seq<char>, target: u32, ramp: u32) -> Seq<char> {
    let quantised = if target / 100 < 9999 {
        target as int / 100
    } else {
        9999
    };
    name + spec_digits4(quantised) + seq!['I'] + spec_dec_min4(ramp as int)
}

/// Renders a movement as a T-Code command line, translating its axis id to
/// the wire axis name through the discovery map.
pub fn movement_to_tcode(map: &VecMap<DiscoveredAxisInfo>, movement: &Movement) -> (r: Result<
    String,
    NoSuchAxis,
>)
    ensures
        match r {
            Ok(line) => spec_lookup(map.view(), movement.spec_axis().0) matches Some(info)
                && line@ == spec_tcode_line(
                info.tcode_axis_name@,
                movement.spec_target(),
                movement.spec_ramp_time(),
            ),
            Err(_) => spec_lookup(map.view(), movement.spec_axis().0) is None,
        },
{
    let info = match map.get(movement.axis().0) {
        Some(info) => info,
        None => {
            return Err(NoSuchAxis {});
        },
    };
    let target_int = {
        let q = movement.target() / 100;
        if q < 9999 {
            q
        } else {
            9999
        }
    };
    let mut line = String::new();
    line.append(info.tcode_axis_name.as_str());
    push_digits4(&mut line, target_int);
    proof {
        reveal_strlit("I");
    }
    line.append("I");
    push_dec_min4(&mut line, movement.ramp_time_milliseconds());
    proof {
        assert(line@ =~= spec_tcode_line(
            info.tcode_axis_name@,
            movement.spec_target(),
            movement.spec_ramp_time(),
        ));
    }
    Ok(line)
}

/// The line that commands an immediate stop of all motion. It takes no
/// axis-specific state, so it can be sent at any time.
pub fn stop_command() -> (r: String)
    ensures
        r@ == "DSTOP"@,
{
    String::from_str("DSTOP")
}

/// The device-identity query line.
pub fn identify_query() -> (r: String)
    ensures
        r@ == "D0"@,
{
    String::from_str("D0")
}

/// The firmware/version query line.
pub fn version_query() -> (r: String)
    ensures
        r@ == "D1"@,
{
    String::from_str("D1")
}

/// The axis-enumeration query line.
pub fn enumerate_axes_query() -> (r: String)
    ensures
        r@ == "D2"@,
{
    String::from_str("D2")
}

/// Combines the two discovery replies into the session description:
/// the identity string, then the firmware string in parentheses.
pub fn session_description(identity: &str, version: &str) -> (r: String)
    ensures
        r@ == identity@ + " ("@ + version@ + ")"@,
{
    let mut r = identity.to_owned();
    r.append(" (");
    r.append(version);
    r.append(")");
    proof {
        assert(r@ =~= identity@ + " ("@ + version@ + ")"@);
    }
    r
}

} // verus!
