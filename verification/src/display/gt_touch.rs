//! The line protocol of the GT Touch display.
//!
//! The display subscribes to values and asks for system information. Lines
//! carry a checksum, but for subscriptions.

use crate::api::types::{BoardState, Fan, MinerState, PowerMeasurement, SourceState, TemperatureSensor};
use crate::precision::{
    add_single, hundredths_of_billionths, hundredths_of_hundredfold, hundredths_of_millionths,
    round_billionths, round_hundredfold, round_millionths, round_sum, single_of_thousandths,
    single_sum, tenths_of_sum, thousandths_in_single, SUM_CAP,
};
use crate::text::{
    chars_of, decimal, find_first, find_last, first_at, has_prefix, hex_byte, hex_byte_value,
    hundredths_text, is_text, last_at, parse_hex_byte, push_decimal, push_hex_byte, push_hundredths,
    push_tenths, push_text, same_text, spells, starts_with, tenths_text, text_of, trim, trim_range,
};
use vstd::prelude::*;
use vstd::utf8::encode_utf8;

verus! {

/// A value that the display can subscribe to.
#[derive(Clone, Copy, Debug, PartialEq, Eq, Structural)]
pub enum Subscription {
    Hashrate,
    Temperature,
    Power,
    FanSpeed,
    FanSpeedPercent,
    Shares,
    BestDifficulty,
    Voltage,
    BlockHeight,
}

/// The subscription of a name.
pub open spec fn subscription_named(name: Seq<char>) -> Option<Subscription> {
    if name == "hashrate"@ {
        Some(Subscription::Hashrate)
    } else if name == "temperature"@ {
        Some(Subscription::Temperature)
    } else if name == "power"@ {
        Some(Subscription::Power)
    } else if name == "fan_speed"@ {
        Some(Subscription::FanSpeed)
    } else if name == "fan_speed_percent"@ {
        Some(Subscription::FanSpeedPercent)
    } else if name == "shares"@ {
        Some(Subscription::Shares)
    } else if name == "best_difficulty"@ {
        Some(Subscription::BestDifficulty)
    } else if name == "voltage"@ {
        Some(Subscription::Voltage)
    } else if name == "block_height"@ {
        Some(Subscription::BlockHeight)
    } else {
        None
    }
}

impl Subscription {
    /// The subscription of a name.
    pub fn from_parameter(parameter: &str) -> (r: Option<Subscription>)
        ensures
            r == subscription_named(parameter@),
    {
        if same_text(parameter, "hashrate") {
            Some(Subscription::Hashrate)
        } else if same_text(parameter, "temperature") {
            Some(Subscription::Temperature)
        } else if same_text(parameter, "power") {
            Some(Subscription::Power)
        } else if same_text(parameter, "fan_speed") {
            Some(Subscription::FanSpeed)
        } else if same_text(parameter, "fan_speed_percent") {
            Some(Subscription::FanSpeedPercent)
        } else if same_text(parameter, "shares") {
            Some(Subscription::Shares)
        } else if same_text(parameter, "best_difficulty") {
            Some(Subscription::BestDifficulty)
        } else if same_text(parameter, "voltage") {
            Some(Subscription::Voltage)
        } else if same_text(parameter, "block_height") {
            Some(Subscription::BlockHeight)
        } else {
            None
        }
    }
}

/// A line from the display.
#[derive(Debug)]
pub enum IncomingMessage {
    Subscribe(Subscription),
    Request { parameter: String },
    Setting { parameter: String, value: String },
}

/// A line from the display, as its contracts speak of it.
pub enum MessageView {
    Subscribe(Subscription),
    Request(Seq<char>),
    Setting(Seq<char>, Seq<char>),
}

impl View for IncomingMessage {
    type V = MessageView;

    open spec fn view(&self) -> MessageView {
        match self {
            IncomingMessage::Subscribe(s) => MessageView::Subscribe(*s),
            IncomingMessage::Request { parameter } => MessageView::Request(parameter@),
            IncomingMessage::Setting { parameter, value } => MessageView::Setting(parameter@, value@),
        }
    }
}

/// Why a line was not understood.
#[derive(Debug)]
pub enum LineError {
    UnsupportedSubscription(String),
    MissingDollar,
    MissingSeparator,
    InvalidChecksum,
    ChecksumMismatch { expected: u8, received: u8 },
    MissingPrefix,
    MissingCommand,
    MissingParameter,
    UnsupportedCommand(String),
}

/// Why a line was not understood, as its contracts speak of it.
pub enum LineErrorView {
    UnsupportedSubscription(Seq<char>),
    MissingDollar,
    MissingSeparator,
    InvalidChecksum,
    ChecksumMismatch(u8, u8),
    MissingPrefix,
    MissingCommand,
    MissingParameter,
    UnsupportedCommand(Seq<char>),
}

impl View for LineError {
    type V = LineErrorView;

    open spec fn view(&self) -> LineErrorView {
        match self {
            LineError::UnsupportedSubscription(p) => LineErrorView::UnsupportedSubscription(p@),
            LineError::MissingDollar => LineErrorView::MissingDollar,
            LineError::MissingSeparator => LineErrorView::MissingSeparator,
            LineError::InvalidChecksum => LineErrorView::InvalidChecksum,
            LineError::ChecksumMismatch { expected, received } => LineErrorView::ChecksumMismatch(
                *expected,
                *received,
            ),
            LineError::MissingPrefix => LineErrorView::MissingPrefix,
            LineError::MissingCommand => LineErrorView::MissingCommand,
            LineError::MissingParameter => LineErrorView::MissingParameter,
            LineError::UnsupportedCommand(c) => LineErrorView::UnsupportedCommand(c@),
        }
    }
}

impl LineError {
    /// The error as text.
    pub open spec fn text(&self) -> Seq<char> {
        match self {
            LineError::UnsupportedSubscription(p) => "unsupported subscription parameter "@ + p@,
            LineError::MissingDollar => "missing $ prefix"@,
            LineError::MissingSeparator => "missing checksum separator"@,
            LineError::InvalidChecksum => "invalid checksum hex"@,
            LineError::ChecksumMismatch { expected, received } => "checksum mismatch: expected "@
                + hex_byte(*expected) + ", got "@ + hex_byte(*received),
            LineError::MissingPrefix => "missing BAP prefix"@,
            LineError::MissingCommand => "missing command"@,
            LineError::MissingParameter => "missing parameter"@,
            LineError::UnsupportedCommand(c) => "unsupported command "@ + c@,
        }
    }

    /// The error as text.
    pub fn message(&self) -> (r: String)
        ensures
            r@ == self.text(),
    {
        let mut out = String::new();
        match self {
            LineError::UnsupportedSubscription(p) => {
                push_text(&mut out, "unsupported subscription parameter ");
                push_text(&mut out, p.as_str());
            },
            LineError::MissingDollar => push_text(&mut out, "missing $ prefix"),
            LineError::MissingSeparator => push_text(&mut out, "missing checksum separator"),
            LineError::InvalidChecksum => push_text(&mut out, "invalid checksum hex"),
            LineError::ChecksumMismatch { expected, received } => {
                push_text(&mut out, "checksum mismatch: expected ");
                push_hex_byte(&mut out, *expected);
                push_text(&mut out, ", got ");
                push_hex_byte(&mut out, *received);
            },
            LineError::MissingPrefix => push_text(&mut out, "missing BAP prefix"),
            LineError::MissingCommand => push_text(&mut out, "missing command"),
            LineError::MissingParameter => push_text(&mut out, "missing parameter"),
            LineError::UnsupportedCommand(c) => {
                push_text(&mut out, "unsupported command ");
                push_text(&mut out, c.as_str());
            },
        }
        assert(out@ =~= self.text());
        out
    }
}

/// The exclusive or of bytes.
pub open spec fn xor_of(bytes: Seq<u8>) -> u8
    decreases bytes.len(),
{
    if bytes.len() == 0 {
        0
    } else {
        xor_of(bytes.drop_last()) ^ bytes.last()
    }
}

/// The checksum of a line's body: the exclusive or of its bytes.
pub open spec fn checksum_of(body: Seq<char>) -> u8 {
    xor_of(encode_utf8(body))
}

/// The checksum of a line's body: the exclusive or of its bytes.
pub fn checksum(body: &str) -> (r: u8)
    ensures
        r == checksum_of(body@),
{
    let bytes: &[u8] = body.as_bytes();
    let mut sum: u8 = 0;
    let mut i: usize = 0;
    while i < bytes.len()
        invariant
            i <= bytes@.len(),
            sum == xor_of(bytes@.take(i as int)),
        decreases bytes@.len() - i,
    {
        assert(bytes@.take(i + 1).drop_last() =~= bytes@.take(i as int));
        sum = sum ^ bytes[i];
        i = i + 1;
    }
    assert(bytes@.take(i as int) =~= bytes@);
    sum
}

/// The body and the checksum of a line.
pub open spec fn split_checked(line: Seq<char>) -> Result<(Seq<char>, u8), LineErrorView> {
    let rest = line.drop_first();
    let at = choose|i: int| last_at(rest, '*', i);
    if line.len() == 0 || line[0] != '$' {
        Err(LineErrorView::MissingDollar)
    } else if !rest.contains('*') {
        Err(LineErrorView::MissingSeparator)
    } else {
        match hex_byte_value(rest.skip(at + 1)) {
            Some(sum) => Ok((rest.take(at), sum)),
            None => Err(LineErrorView::InvalidChecksum),
        }
    }
}

/// Splits characters `from` to `to` into the end of the body and the checksum.
fn split_checked_chars(chars: &Vec<char>, from: usize, to: usize) -> (r: Result<
    (usize, u8),
    LineError,
>)
    requires
        from <= to <= chars@.len(),
    ensures
        match r {
            Ok((end, sum)) => from < end <= to && split_checked(
                chars@.subrange(from as int, to as int),
            ) == Ok::<(Seq<char>, u8), LineErrorView>(
                (chars@.subrange(from + 1, end as int), sum),
            ),
            Err(e) => split_checked(chars@.subrange(from as int, to as int)) == Err::<
                (Seq<char>, u8),
                LineErrorView,
            >(e@),
        },
{
    let ghost line = chars@.subrange(from as int, to as int);
    if from == to || chars[from] != '$' {
        return Err(LineError::MissingDollar);
    }
    let ghost rest = line.drop_first();
    assert(rest =~= chars@.subrange(from + 1, to as int));
    match find_last(chars, from + 1, to, '*') {
        None => Err(LineError::MissingSeparator),
        Some(end) => {
            let ghost at = choose|i: int| last_at(rest, '*', i);
            assert(last_at(rest, '*', end - from - 1));
            assert(at == end - from - 1);
            assert(rest.skip(at + 1) =~= chars@.subrange(end + 1, to as int));
            assert(rest.take(at) =~= chars@.subrange(from + 1, end as int));
            match parse_hex_byte(chars, end + 1, to) {
                Some(sum) => Ok((end, sum)),
                None => Err(LineError::InvalidChecksum),
            }
        },
    }
}

/// Splits a line into its body and its checksum.
pub fn split_checked_line(line: &str) -> (r: Result<(String, u8), LineError>)
    ensures
        match r {
            Ok((body, sum)) => split_checked(line@) == Ok::<(Seq<char>, u8), LineErrorView>(
                (body@, sum),
            ),
            Err(e) => split_checked(line@) == Err::<(Seq<char>, u8), LineErrorView>(e@),
        },
{
    let chars = chars_of(line);
    let len: usize = chars.len();
    assert(chars@.subrange(0, len as int) =~= line@);
    match split_checked_chars(&chars, 0, len) {
        Ok((end, sum)) => Ok((text_of(&chars, 1, end), sum)),
        Err(e) => Err(e),
    }
}

/// The text between commas, in at most `n` pieces; the last keeps its commas.
pub open spec fn fields_of(s: Seq<char>, n: nat) -> Seq<Seq<char>>
    decreases n,
{
    if n <= 1 || !s.contains(',') {
        seq![s]
    } else {
        let at = choose|i: int| first_at(s, ',', i);
        seq![s.take(at)] + fields_of(s.skip(at + 1), (n - 1) as nat)
    }
}

/// The texts of ranges of characters.
pub open spec fn pieces(chars: Seq<char>, ranges: Seq<(usize, usize)>) -> Seq<Seq<char>> {
    ranges.map_values(|range: (usize, usize)| chars.subrange(range.0 as int, range.1 as int))
}

/// Appends the ranges between commas among characters `from` to `to`.
fn push_fields(
    ranges: &mut Vec<(usize, usize)>,
    chars: &Vec<char>,
    from: usize,
    to: usize,
    n: u8,
)
    requires
        from <= to <= chars@.len(),
        forall|i: int|
            0 <= i < old(ranges)@.len() ==> (#[trigger] old(ranges)@[i]).0 <= old(ranges)@[i].1
                <= chars@.len(),
    ensures
        pieces(chars@, final(ranges)@) == pieces(chars@, old(ranges)@) + fields_of(
            chars@.subrange(from as int, to as int),
            n as nat,
        ),
        forall|i: int|
            0 <= i < final(ranges)@.len() ==> (#[trigger] final(ranges)@[i]).0
                <= final(ranges)@[i].1 <= chars@.len(),
    decreases n,
{
    let ghost before = ranges@;
    let ghost s = chars@.subrange(from as int, to as int);
    let found = if n <= 1 {
        None
    } else {
        find_first(chars, from, to, ',')
    };
    match found {
        None => {
            ranges.push((from, to));
            assert(pieces(chars@, ranges@) =~= pieces(chars@, before) + seq![s]);
        },
        Some(at) => {
            let ghost k = choose|i: int| first_at(s, ',', i);
            assert(first_at(s, ',', at - from));
            assert(k == at - from);
            assert(s.contains(',')) by {
                assert(s[k] == ',');
            }
            ranges.push((from, at));
            assert(s.take(k) =~= chars@.subrange(from as int, at as int));
            assert(s.skip(k + 1) =~= chars@.subrange(at + 1, to as int));
            assert(pieces(chars@, ranges@) =~= pieces(chars@, before) + seq![s.take(k)]);
            push_fields(ranges, chars, at + 1, to, n - 1);
            assert(pieces(chars@, ranges@) =~= pieces(chars@, before) + (seq![s.take(k)]
                + fields_of(s.skip(k + 1), (n - 1) as nat)));
        },
    }
}

/// The message with these fields.
pub open spec fn message_of(fields: Seq<Seq<char>>) -> Result<MessageView, LineErrorView> {
    if fields[0] != "BAP"@ {
        Err(LineErrorView::MissingPrefix)
    } else if fields.len() < 2 {
        Err(LineErrorView::MissingCommand)
    } else if fields.len() < 3 {
        Err(LineErrorView::MissingParameter)
    } else if fields[1] == "REQ"@ {
        Ok(MessageView::Request(fields[2]))
    } else if fields[1] == "SET"@ {
        Ok(
            MessageView::Setting(
                fields[2],
                if fields.len() > 3 {
                    fields[3]
                } else {
                    Seq::<char>::empty()
                },
            ),
        )
    } else {
        Err(LineErrorView::UnsupportedCommand(fields[1]))
    }
}

/// What a line says.
pub open spec fn line_meaning(line: Seq<char>) -> Result<MessageView, LineErrorView> {
    let t = trim(line);
    if has_prefix(t, "$BAP,SUB,"@) {
        match subscription_named(t.skip(9)) {
            Some(s) => Ok(MessageView::Subscribe(s)),
            None => Err(LineErrorView::UnsupportedSubscription(t.skip(9))),
        }
    } else {
        match split_checked(t) {
            Err(e) => Err(e),
            Ok((body, received)) => if checksum_of(body) != received {
                Err(LineErrorView::ChecksumMismatch(checksum_of(body), received))
            } else {
                message_of(fields_of(body, 4))
            },
        }
    }
}

/// Whether a result is what a line says.
pub open spec fn means(
    r: Result<IncomingMessage, LineError>,
    meaning: Result<MessageView, LineErrorView>,
) -> bool {
    match r {
        Ok(m) => meaning == Ok::<MessageView, LineErrorView>(m@),
        Err(e) => meaning == Err::<MessageView, LineErrorView>(e@),
    }
}

/// Reads a line from the display.
pub fn parse_line(line: &str) -> (r: Result<IncomingMessage, LineError>)
    ensures
        means(r, line_meaning(line@)),
{
    let chars = chars_of(line);
    let (from, to) = trim_range(&chars);
    let ghost t = trim(line@);
    assert(chars@.subrange(from as int, to as int) == t);

    if starts_with(&chars, from, to, "$BAP,SUB,") {
        proof {
            reveal_strlit("$BAP,SUB,");
        }
        let start: usize = from + 9;
        assert(t.skip(9) =~= chars@.subrange(start as int, to as int));
        let parameter = text_of(&chars, start, to);
        return match Subscription::from_parameter(parameter.as_str()) {
            Some(s) => Ok(IncomingMessage::Subscribe(s)),
            None => Err(LineError::UnsupportedSubscription(parameter)),
        };
    }
    let (end, received) = match split_checked_chars(&chars, from, to) {
        Ok(parts) => parts,
        Err(e) => {
            return Err(e);
        },
    };
    let body = text_of(&chars, from + 1, end);
    let expected: u8 = checksum(body.as_str());
    if expected != received {
        return Err(LineError::ChecksumMismatch { expected, received });
    }
    let mut ranges: Vec<(usize, usize)> = Vec::new();
    push_fields(&mut ranges, &chars, from + 1, end, 4);
    let ghost fields = fields_of(body@, 4);
    proof {
        assert(pieces(chars@, Seq::<(usize, usize)>::empty()) =~= Seq::<Seq<char>>::empty());
        assert(pieces(chars@, ranges@) =~= fields);
        lemma_fields_nonempty(body@, 4);
        assert forall|i: int| 0 <= i < ranges@.len() implies fields[i] == chars@.subrange(
            (#[trigger] ranges@[i]).0 as int,
            ranges@[i].1 as int,
        ) by {
            assert(fields[i] == pieces(chars@, ranges@)[i]);
        }
    }
    if !spells(&chars, ranges[0].0, ranges[0].1, "BAP") {
        return Err(LineError::MissingPrefix);
    }
    if ranges.len() < 2 {
        return Err(LineError::MissingCommand);
    }
    if ranges.len() < 3 {
        return Err(LineError::MissingParameter);
    }
    let parameter = text_of(&chars, ranges[2].0, ranges[2].1);
    if spells(&chars, ranges[1].0, ranges[1].1, "REQ") {
        return Ok(IncomingMessage::Request { parameter });
    }
    if spells(&chars, ranges[1].0, ranges[1].1, "SET") {
        let value = if ranges.len() > 3 {
            text_of(&chars, ranges[3].0, ranges[3].1)
        } else {
            String::new()
        };
        assert(ranges@.len() <= 3 ==> value@ =~= Seq::<char>::empty());
        return Ok(IncomingMessage::Setting { parameter, value });
    }
    Err(LineError::UnsupportedCommand(text_of(&chars, ranges[1].0, ranges[1].1)))
}

proof fn lemma_fields_nonempty(s: Seq<char>, n: nat)
    ensures
        fields_of(s, n).len() > 0,
{
}

/// The body of a response.
pub open spec fn response_body(parameter: Seq<char>, value: Seq<char>) -> Seq<char> {
    "BAP,RES,"@ + parameter + ","@ + value
}

/// A response line.
pub open spec fn response_line(parameter: Seq<char>, value: Seq<char>) -> Seq<char> {
    let body = response_body(parameter, value);
    "$"@ + body + "*"@ + hex_byte(checksum_of(body)) + "\r\n"@
}

/// Builds a response line.
pub fn format_response(parameter: &str, value: &str) -> (r: String)
    ensures
        r@ == response_line(parameter@, value@),
{
    let mut body = String::new();
    push_text(&mut body, "BAP,RES,");
    push_text(&mut body, parameter);
    push_text(&mut body, ",");
    push_text(&mut body, value);
    assert(body@ =~= response_body(parameter@, value@));
    let sum: u8 = checksum(body.as_str());
    let mut line = String::new();
    push_text(&mut line, "$");
    push_text(&mut line, body.as_str());
    push_text(&mut line, "*");
    push_hex_byte(&mut line, sum);
    push_text(&mut line, "\r\n");
    assert(line@ =~= response_line(parameter@, value@));
    line
}

/// A hexadecimal byte reads back as itself.
proof fn lemma_hex_byte_reads_back(b: u8)
    ensures
        hex_byte_value(hex_byte(b)) == Some(b),
        hex_byte(b).len() == 2,
        hex_byte(b)[0] != '*' && hex_byte(b)[1] != '*',
        !crate::text::is_space(hex_byte(b)[1]),
{
    let s = hex_byte(b);
    assert(s.len() == 2);
    assert(crate::text::hex_digit(s[0]) == b / 16);
    assert(crate::text::hex_digit(s[1]) == b % 16);
    assert(crate::text::unsigned_digits(s) == s);
    assert(s.drop_last().drop_last() =~= Seq::<char>::empty());
    assert(s.drop_last().last() == s[0]);
    reveal_with_fuel(crate::text::hex_number, 3);
    assert(crate::text::hex_number(s) == 16 * (b / 16) + b % 16);
}

/// A line with its checksum, without an end of line.
pub open spec fn checked_line(body: Seq<char>) -> Seq<char> {
    "$"@ + body + "*"@ + hex_byte(checksum_of(body))
}

/// A line that is made of a body and its checksum has that body and that
/// checksum, whatever the body holds. An end of line makes no difference.
pub proof fn law_checked_line_reads_back(body: Seq<char>)
    ensures
        split_checked(checked_line(body)) == Ok::<(Seq<char>, u8), LineErrorView>(
            (body, checksum_of(body)),
        ),
        trim(checked_line(body)) == checked_line(body),
        trim(checked_line(body) + "\r\n"@) == checked_line(body),
{
    let hex = hex_byte(checksum_of(body));
    let kept = checked_line(body);
    let line = kept + "\r\n"@;
    reveal_strlit("$");
    reveal_strlit("*");
    reveal_strlit("\r\n");
    lemma_hex_byte_reads_back(checksum_of(body));
    assert(kept[0] == '$' && line[0] == '$');
    assert(crate::text::trim_start(line) == line);
    assert(crate::text::trim_start(kept) == kept);
    assert(line.drop_last().drop_last() =~= kept);
    assert(line.last() == '\n');
    assert(line.drop_last().last() == '\r');
    assert(kept.last() == hex[1]);
    reveal_with_fuel(crate::text::trim_end, 3);
    assert(trim(line) == kept);
    let rest = kept.drop_first();
    let at = body.len() as int;
    assert(rest[at] == '*');
    assert(rest.len() == at + 3);
    assert(rest[at + 1] == hex[0] && rest[at + 2] == hex[1]);
    assert(last_at(rest, '*', at));
    assert(rest.contains('*'));
    let chosen = choose|i: int| last_at(rest, '*', i);
    assert(chosen == at);
    assert(rest.take(at) =~= body);
    assert(rest.skip(at + 1) =~= hex);
}

/// A response line, read as a line from the display is, has the body and the
/// checksum that it was made with, whatever the parameter and the value.
pub proof fn law_response_reads_back(parameter: Seq<char>, value: Seq<char>)
    ensures
        split_checked(trim(response_line(parameter, value))) == Ok::<
            (Seq<char>, u8),
            LineErrorView,
        >((response_body(parameter, value), checksum_of(response_body(parameter, value)))),
{
    let body = response_body(parameter, value);
    law_checked_line_reads_back(body);
    assert(response_line(parameter, value) =~= checked_line(body) + "\r\n"@);
}

/// Where `"://"` first occurs.
pub open spec fn scheme_at(url: Seq<char>, i: int) -> bool {
    &&& separates(url, i)
    &&& forall|j: int| 0 <= j < i ==> !separates(url, j)
}

/// Whether `"://"` occurs at a position.
pub open spec fn separates(url: Seq<char>, i: int) -> bool {
    0 <= i && i + 3 <= url.len() && url[i] == ':' && url[i + 1] == '/' && url[i + 2] == '/'
}

/// Whether every character is a decimal digit.
pub open spec fn all_digits(s: Seq<char>) -> bool {
    forall|i: int| 0 <= i < s.len() ==> 48 <= (#[trigger] s[i]) as int <= 57
}

/// A pool's URL without its port, and the port. The port is what follows the
/// last colon behind the scheme, if it is made of digits.
pub open spec fn pool_parts(url: Seq<char>) -> (Seq<char>, Option<Seq<char>>) {
    if exists|i: int| scheme_at(url, i) {
        let start = (choose|i: int| scheme_at(url, i)) + 3;
        let rest = url.skip(start);
        if rest.contains(':') {
            let at = choose|i: int| last_at(rest, ':', i);
            if all_digits(rest.skip(at + 1)) {
                (url.take(start + at), Some(rest.skip(at + 1)))
            } else {
                (url, None)
            }
        } else {
            (url, None)
        }
    } else {
        (url, None)
    }
}

/// Where the part behind the scheme begins.
fn find_scheme_end(chars: &Vec<char>) -> (r: Option<usize>)
    ensures
        match r {
            Some(end) => 3 <= end <= chars@.len() && scheme_at(chars@, end - 3),
            None => forall|i: int| !scheme_at(chars@, i),
        },
{
    let len: usize = chars.len();
    let mut i: usize = 0;
    while i < len && len - i >= 3
        invariant
            i <= len == chars@.len(),
            forall|j: int| 0 <= j < i ==> !separates(chars@, j),
        decreases len - i,
    {
        if chars[i] == ':' && chars[i + 1] == '/' && chars[i + 2] == '/' {
            return Some(i + 3);
        }
        i = i + 1;
    }
    None
}

/// Whether characters `from` to `to` are all decimal digits.
fn digits_only(chars: &Vec<char>, from: usize, to: usize) -> (r: bool)
    requires
        from <= to <= chars@.len(),
    ensures
        r == all_digits(chars@.subrange(from as int, to as int)),
{
    let ghost part = chars@.subrange(from as int, to as int);
    let mut i: usize = from;
    while i < to
        invariant
            from <= i <= to <= chars@.len(),
            part == chars@.subrange(from as int, to as int),
            forall|j: int| 0 <= j < i - from ==> 48 <= (#[trigger] part[j]) as int <= 57,
        decreases to - i,
    {
        if !is_digit(chars[i]) {
            assert(part[i - from] == chars@[i as int]);
            return false;
        }
        i = i + 1;
    }
    true
}

/// Splits a pool's URL into what comes before the port, and the port.
pub fn split_pool_url(url: &str) -> (r: (Option<String>, Option<String>))
    ensures
        r.0 matches Some(pool) && pool@ == pool_parts(url@).0,
        match r.1 {
            Some(port) => pool_parts(url@).1 == Some(port@),
            None => pool_parts(url@).1 is None,
        },
{
    let chars = chars_of(url);
    let len: usize = chars.len();
    assert(chars@.subrange(0, len as int) =~= url@);
    let start: usize = match find_scheme_end(&chars) {
        Some(start) => start,
        None => {
            return (Some(text_of(&chars, 0, len)), None);
        },
    };
    let ghost first = choose|i: int| scheme_at(url@, i);
    assert(scheme_at(url@, start - 3));
    assert(first == start - 3) by {
        assert(separates(url@, first) && separates(url@, start - 3));
    }
    let ghost rest = url@.skip(start as int);
    assert(rest =~= chars@.subrange(start as int, len as int));
    let colon: usize = match find_last(&chars, start, len, ':') {
        Some(colon) => colon,
        None => {
            return (Some(text_of(&chars, 0, len)), None);
        },
    };
    let ghost at = choose|i: int| last_at(rest, ':', i);
    assert(last_at(rest, ':', colon - start));
    assert(at == colon - start);
    assert(rest.contains(':')) by {
        assert(rest[at] == ':');
    }
    let ghost port = rest.skip(at + 1);
    assert(port =~= chars@.subrange(colon + 1, len as int));
    if !digits_only(&chars, colon + 1, len) {
        return (Some(text_of(&chars, 0, len)), None);
    }
    assert(url@.take(start + at) =~= chars@.subrange(0, colon as int));
    (Some(text_of(&chars, 0, colon)), Some(text_of(&chars, colon + 1, len)))
}

/// Whether a character is a decimal digit.
fn is_digit(c: char) -> (r: bool)
    ensures
        r == (48 <= c as int <= 57),
{
    let n: u32 = c as u32;
    48 <= n && n <= 57
}

/// Splitting takes nothing away: the parts, joined by a colon, are the URL.
pub proof fn law_pool_parts_join(url: Seq<char>)
    ensures
        match pool_parts(url).1 {
            Some(port) => pool_parts(url).0 + seq![':'] + port == url && all_digits(port),
            None => pool_parts(url).0 == url,
        },
{
    if pool_parts(url).1 is Some {
        let start = (choose|i: int| scheme_at(url, i)) + 3;
        let first = choose|i: int| scheme_at(url, i);
        assert(scheme_at(url, first));
        let rest = url.skip(start);
        let k = choose|k: int| 0 <= k < rest.len() && rest[k] == ':';
        lemma_last_exists(rest, ':', k);
        let at = choose|i: int| last_at(rest, ':', i);
        assert(last_at(rest, ':', at));
        assert(url[start + at] == ':');
        assert(url.take(start + at) + seq![':'] + rest.skip(at + 1) =~= url);
    }
}

proof fn lemma_last_exists(s: Seq<char>, c: char, k: int)
    requires
        0 <= k < s.len(),
        s[k] == c,
    ensures
        exists|i: int| last_at(s, c, i),
    decreases s.len() - k,
{
    if exists|j: int| k < j < s.len() && s[j] == c {
        let j = choose|j: int| k < j < s.len() && s[j] == c;
        lemma_last_exists(s, c, j);
    } else {
        assert(last_at(s, c, k));
    }
}

/// Every temperature sensor of the boards, in order.
pub open spec fn sensors_of(boards: Seq<BoardState>) -> Seq<TemperatureSensor>
    decreases boards.len(),
{
    if boards.len() == 0 {
        Seq::<TemperatureSensor>::empty()
    } else {
        sensors_of(boards.drop_last()) + boards.last().temperatures@
    }
}

/// Every power rail of the boards, in order.
pub open spec fn rails_of(boards: Seq<BoardState>) -> Seq<PowerMeasurement>
    decreases boards.len(),
{
    if boards.len() == 0 {
        Seq::<PowerMeasurement>::empty()
    } else {
        rails_of(boards.drop_last()) + boards.last().powers@
    }
}

/// Every fan of the boards, in order.
pub open spec fn fans_of(boards: Seq<BoardState>) -> Seq<Fan>
    decreases boards.len(),
{
    if boards.len() == 0 {
        Seq::<Fan>::empty()
    } else {
        fans_of(boards.drop_last()) + boards.last().fans@
    }
}

/// The largest of the readings, if there is any.
pub open spec fn largest_reading(readings: Seq<Option<i64>>) -> Option<i64>
    decreases readings.len(),
{
    if readings.len() == 0 {
        None
    } else {
        match (largest_reading(readings.drop_last()), readings.last()) {
            (Some(a), Some(b)) => Some(
                if a >= b {
                    a
                } else {
                    b
                },
            ),
            (Some(a), None) => Some(a),
            (None, b) => b,
        }
    }
}

/// The largest reading is a reading, and no reading is larger; there is none
/// only if there is no reading.
pub proof fn law_largest_reading(readings: Seq<Option<i64>>)
    ensures
        match largest_reading(readings) {
            Some(m) => readings.contains(Some(m)) && forall|i: int|
                0 <= i < readings.len() ==> ((#[trigger] readings[i]) matches Some(x) ==> x <= m),
            None => forall|i: int| 0 <= i < readings.len() ==> (#[trigger] readings[i]) is None,
        },
    decreases readings.len(),
{
    if readings.len() > 0 {
        let rest = readings.drop_last();
        law_largest_reading(rest);
        assert forall|i: int| 0 <= i < rest.len() implies readings[i] == #[trigger] rest[i] by {}
        assert(readings[readings.len() - 1] == readings.last());
        if let Some(m) = largest_reading(readings) {
            if readings.last() != Some(m) {
                let i = choose|i: int| 0 <= i < rest.len() && rest[i] == Some(m);
                assert(readings[i] == Some(m));
            }
        }
        assert forall|i: int| 0 <= i < readings.len() implies (match largest_reading(readings) {
            Some(m) => (#[trigger] readings[i]) matches Some(x) ==> x <= m,
            None => readings[i] is None,
        }) by {
            if i < rest.len() {
                assert(rest[i] == readings[i]);
            }
        }
    }
}

/// Takes one more reading into account.
fn take_reading(best: Option<i64>, reading: Option<i64>) -> (r: Option<i64>)
    ensures
        r == match (best, reading) {
            (Some(a), Some(b)) => Some(
                if a >= b {
                    a
                } else {
                    b
                },
            ),
            (Some(a), None) => Some(a),
            (None, b) => b,
        },
{
    match (best, reading) {
        (Some(a), Some(b)) => if a >= b {
            Some(a)
        } else {
            Some(b)
        },
        (Some(a), None) => Some(a),
        (None, b) => b,
    }
}

/// Temperature readings, widened.
pub open spec fn temperature_readings(state: MinerState) -> Seq<Option<i64>> {
    sensors_of(state.boards@).map_values(
        |sensor: TemperatureSensor|
            match sensor.microc {
                Some(x) => Some(x as i64),
                None => None,
            },
    )
}

/// Fan speeds, widened.
pub open spec fn rpm_readings(state: MinerState) -> Seq<Option<i64>> {
    fans_of(state.boards@).map_values(
        |fan: Fan|
            match fan.rpm {
                Some(x) => Some(x as i64),
                None => None,
            },
    )
}

/// Fan duty cycles, or else their targets, widened.
pub open spec fn percent_readings(state: MinerState) -> Seq<Option<i64>> {
    fans_of(state.boards@).map_values(
        |fan: Fan|
            match (fan.percent, fan.target_percent) {
                (Some(x), _) => Some(x as i64),
                (None, Some(x)) => Some(x as i64),
                (None, None) => None,
            },
    )
}

/// The sensors of all boards, one after the other.
fn all_sensors<'a>(boards: &'a Vec<BoardState>) -> (r: Vec<&'a TemperatureSensor>)
    ensures
        r@.len() == sensors_of(boards@).len(),
        forall|i: int| 0 <= i < r@.len() ==> *(#[trigger] r@[i]) == sensors_of(boards@)[i],
{
    let mut sensors: Vec<&'a TemperatureSensor> = Vec::new();
    let mut i: usize = 0;
    while i < boards.len()
        invariant
            i <= boards@.len(),
            sensors@.len() == sensors_of(boards@.take(i as int)).len(),
            forall|k: int|
                0 <= k < sensors@.len() ==> *(#[trigger] sensors@[k]) == sensors_of(
                    boards@.take(i as int),
                )[k],
        decreases boards@.len() - i,
    {
        let own = &boards[i].temperatures;
        let ghost before = sensors_of(boards@.take(i as int));
        assert(boards@.take(i + 1).drop_last() =~= boards@.take(i as int));
        assert(sensors_of(boards@.take(i + 1)) == before + own@);
        let mut j: usize = 0;
        while j < own.len()
            invariant
                j <= own@.len(),
                sensors@.len() == before.len() + j,
                forall|k: int|
                    0 <= k < sensors@.len() ==> *(#[trigger] sensors@[k]) == (before + own@)[k],
            decreases own@.len() - j,
        {
            sensors.push(&own[j]);
            j = j + 1;
        }
        i = i + 1;
    }
    assert(boards@.take(i as int) =~= boards@);
    sensors
}

/// The highest temperature.
pub fn max_temperature(state: &MinerState) -> (r: Option<i64>)
    ensures
        r == largest_reading(temperature_readings(*state)),
{
    let sensors = all_sensors(&state.boards);
    let ghost all = temperature_readings(*state);
    let mut best: Option<i64> = None;
    let mut i: usize = 0;
    while i < sensors.len()
        invariant
            i <= sensors@.len(),
            sensors@.len() == all.len(),
            all == temperature_readings(*state),
            forall|k: int|
                0 <= k < sensors@.len() ==> *(#[trigger] sensors@[k]) == sensors_of(state.boards@)[k],
            best == largest_reading(all.take(i as int)),
        decreases sensors@.len() - i,
    {
        let reading: Option<i64> = match sensors[i].microc {
            Some(x) => Some(x as i64),
            None => None,
        };
        assert(all.take(i + 1).drop_last() =~= all.take(i as int));
        assert(all.take(i + 1).last() == reading);
        best = take_reading(best, reading);
        i = i + 1;
    }
    assert(all.take(i as int) =~= all);
    best
}

/// The fans of all boards, one after the other.
fn all_fans<'a>(boards: &'a Vec<BoardState>) -> (r: Vec<&'a Fan>)
    ensures
        r@.len() == fans_of(boards@).len(),
        forall|i: int| 0 <= i < r@.len() ==> *(#[trigger] r@[i]) == fans_of(boards@)[i],
{
    let mut fans: Vec<&'a Fan> = Vec::new();
    let mut i: usize = 0;
    while i < boards.len()
        invariant
            i <= boards@.len(),
            fans@.len() == fans_of(boards@.take(i as int)).len(),
            forall|k: int|
                0 <= k < fans@.len() ==> *(#[trigger] fans@[k]) == fans_of(
                    boards@.take(i as int),
                )[k],
        decreases boards@.len() - i,
    {
        let own = &boards[i].fans;
        let ghost before = fans_of(boards@.take(i as int));
        assert(boards@.take(i + 1).drop_last() =~= boards@.take(i as int));
        assert(fans_of(boards@.take(i + 1)) == before + own@);
        let mut j: usize = 0;
        while j < own.len()
            invariant
                j <= own@.len(),
                fans@.len() == before.len() + j,
                forall|k: int|
                    0 <= k < fans@.len() ==> *(#[trigger] fans@[k]) == (before + own@)[k],
            decreases own@.len() - j,
        {
            fans.push(&own[j]);
            j = j + 1;
        }
        i = i + 1;
    }
    assert(boards@.take(i as int) =~= boards@);
    fans
}

/// The highest fan speed.
pub fn max_fan_rpm(state: &MinerState) -> (r: Option<i64>)
    ensures
        r == largest_reading(rpm_readings(*state)),
{
    let fans = all_fans(&state.boards);
    let ghost all = rpm_readings(*state);
    let mut best: Option<i64> = None;
    let mut i: usize = 0;
    while i < fans.len()
        invariant
            i <= fans@.len(),
            fans@.len() == all.len(),
            all == rpm_readings(*state),
            forall|k: int|
                0 <= k < fans@.len() ==> *(#[trigger] fans@[k]) == fans_of(state.boards@)[k],
            best == largest_reading(all.take(i as int)),
        decreases fans@.len() - i,
    {
        let reading: Option<i64> = match fans[i].rpm {
            Some(x) => Some(x as i64),
            None => None,
        };
        assert(all.take(i + 1).drop_last() =~= all.take(i as int));
        assert(all.take(i + 1).last() == reading);
        best = take_reading(best, reading);
        i = i + 1;
    }
    assert(all.take(i as int) =~= all);
    best
}

/// The highest fan duty cycle; where a fan does not report it, its target
/// counts.
pub fn max_fan_percent(state: &MinerState) -> (r: Option<i64>)
    ensures
        r == largest_reading(percent_readings(*state)),
{
    let fans = all_fans(&state.boards);
    let ghost all = percent_readings(*state);
    let mut best: Option<i64> = None;
    let mut i: usize = 0;
    while i < fans.len()
        invariant
            i <= fans@.len(),
            fans@.len() == all.len(),
            all == percent_readings(*state),
            forall|k: int|
                0 <= k < fans@.len() ==> *(#[trigger] fans@[k]) == fans_of(state.boards@)[k],
            best == largest_reading(all.take(i as int)),
        decreases fans@.len() - i,
    {
        let reading: Option<i64> = match (fans[i].percent, fans[i].target_percent) {
            (Some(x), _) => Some(x as i64),
            (None, Some(x)) => Some(x as i64),
            (None, None) => None,
        };
        assert(all.take(i + 1).drop_last() =~= all.take(i as int));
        assert(all.take(i + 1).last() == reading);
        best = take_reading(best, reading);
        i = i + 1;
    }
    assert(all.take(i as int) =~= all);
    best
}

/// The power of rails, added up in single precision from the first on, with
/// `THOUSANDTHS_UNIT` to the watt. A rail that does not report its power adds
/// none.
pub open spec fn power_of(rails: Seq<PowerMeasurement>) -> nat
    decreases rails.len(),
{
    if rails.len() == 0 {
        0
    } else {
        match rails.last().milliwatts {
            Some(x) => single_sum(power_of(rails.drop_last()), single_of_thousandths(x as nat)),
            None => power_of(rails.drop_last()),
        }
    }
}

/// The first voltage that a rail reports.
pub open spec fn first_voltage_of(rails: Seq<PowerMeasurement>) -> Option<u32>
    decreases rails.len(),
{
    if rails.len() == 0 {
        None
    } else if rails[0].microvolts is Some {
        rails[0].microvolts
    } else {
        first_voltage_of(rails.drop_first())
    }
}

/// The rails of all boards, one after the other.
fn all_rails<'a>(boards: &'a Vec<BoardState>) -> (r: Vec<&'a PowerMeasurement>)
    ensures
        r@.len() == rails_of(boards@).len(),
        forall|i: int| 0 <= i < r@.len() ==> *(#[trigger] r@[i]) == rails_of(boards@)[i],
{
    let mut rails: Vec<&'a PowerMeasurement> = Vec::new();
    let mut i: usize = 0;
    while i < boards.len()
        invariant
            i <= boards@.len(),
            rails@.len() == rails_of(boards@.take(i as int)).len(),
            forall|k: int|
                0 <= k < rails@.len() ==> *(#[trigger] rails@[k]) == rails_of(
                    boards@.take(i as int),
                )[k],
        decreases boards@.len() - i,
    {
        let own = &boards[i].powers;
        let ghost before = rails_of(boards@.take(i as int));
        assert(boards@.take(i + 1).drop_last() =~= boards@.take(i as int));
        assert(rails_of(boards@.take(i + 1)) == before + own@);
        let mut j: usize = 0;
        while j < own.len()
            invariant
                j <= own@.len(),
                rails@.len() == before.len() + j,
                forall|k: int|
                    0 <= k < rails@.len() ==> *(#[trigger] rails@[k]) == (before + own@)[k],
            decreases own@.len() - j,
        {
            rails.push(&own[j]);
            j = j + 1;
        }
        i = i + 1;
    }
    assert(boards@.take(i as int) =~= boards@);
    rails
}

/// The power of all boards, if there is any, with `THOUSANDTHS_UNIT` to the watt.
pub fn total_power(state: &MinerState) -> (r: Option<u128>)
    ensures
        match r {
            Some(x) => 0 < x == power_of(rails_of(state.boards@)) && x <= SUM_CAP,
            None => power_of(rails_of(state.boards@)) == 0,
        },
{
    let rails = all_rails(&state.boards);
    let ghost all = rails_of(state.boards@);
    let mut total: u128 = 0;
    let mut i: usize = 0;
    while i < rails.len()
        invariant
            i <= rails@.len() == all.len(),
            all == rails_of(state.boards@),
            forall|k: int| 0 <= k < rails@.len() ==> *(#[trigger] rails@[k]) == all[k],
            total == power_of(all.take(i as int)),
            total <= SUM_CAP,
        decreases rails@.len() - i,
    {
        assert(all.take(i + 1).drop_last() =~= all.take(i as int));
        assert(all.take(i + 1).last() == *rails@[i as int]);
        if let Some(x) = rails[i].milliwatts {
            total = add_single(total, thousandths_in_single(x));
        }
        i = i + 1;
    }
    assert(all.take(i as int) =~= all);
    if total > 0 {
        Some(total)
    } else {
        None
    }
}

/// The first voltage that a board reports, in microvolts.
pub fn first_voltage(state: &MinerState) -> (r: Option<u32>)
    ensures
        r == first_voltage_of(rails_of(state.boards@)),
{
    let rails = all_rails(&state.boards);
    let ghost all = rails_of(state.boards@);
    let mut i: usize = 0;
    assert(all.skip(0) =~= all);
    while i < rails.len()
        invariant
            i <= rails@.len() == all.len(),
            all == rails_of(state.boards@),
            forall|k: int| 0 <= k < rails@.len() ==> *(#[trigger] rails@[k]) == all[k],
            first_voltage_of(all.skip(i as int)) == first_voltage_of(all),
        decreases rails@.len() - i,
    {
        assert(all.skip(i as int)[0] == *rails@[i as int]);
        assert(all.skip(i as int).drop_first() =~= all.skip(i + 1));
        if let Some(x) = rails[i].microvolts {
            return Some(x);
        }
        i = i + 1;
    }
    None
}

/// A voltage as the display shows it: in hundredths of a volt, with two decimal
/// places.
pub open spec fn voltage_text(microvolts: u32) -> Seq<char> {
    hundredths_text(hundredths_of_hundredfold(microvolts as nat))
}

/// Formats a voltage as the display shows it.
pub fn format_gt_touch_voltage(microvolts: u32) -> (r: String)
    ensures
        r@ == voltage_text(microvolts),
{
    let mut out = String::new();
    push_hundredths(&mut out, round_hundredfold(microvolts));
    assert(out@ =~= voltage_text(microvolts));
    out
}

/// A temperature in degrees, with two decimal places.
pub open spec fn temperature_text(microc: i64) -> Seq<char> {
    if microc < 0 {
        "-"@ + hundredths_text(hundredths_of_millionths((-microc) as nat))
    } else {
        hundredths_text(hundredths_of_millionths(microc as nat))
    }
}

/// What a subscription shows: the parameter and its value, if there is one.
pub open spec fn shown(subscription: Subscription, state: MinerState) -> Option<
    (Seq<char>, Seq<char>),
> {
    match subscription {
        Subscription::Hashrate => Some(
            (
                "hashrate"@,
                hundredths_text(hundredths_of_billionths(state.hashrate as nat)),
            ),
        ),
        Subscription::Temperature => match largest_reading(temperature_readings(state)) {
            Some(x) => Some(("chipTemp"@, temperature_text(x))),
            None => None,
        },
        Subscription::Power => {
            let power = power_of(rails_of(state.boards@));
            if power > 0 {
                Some(("power"@, tenths_text(tenths_of_sum(power))))
            } else {
                None
            }
        },
        Subscription::FanSpeed => match largest_reading(rpm_readings(state)) {
            Some(x) => Some(("fan_speed"@, decimal(x as nat))),
            None => None,
        },
        Subscription::FanSpeedPercent => match largest_reading(percent_readings(state)) {
            Some(x) => Some(("fan_speed_percent"@, decimal(x as nat))),
            None => None,
        },
        Subscription::Shares => Some(("shares"@, decimal(state.shares_submitted as nat))),
        Subscription::BestDifficulty => match state.best_difficulty {
            Some(x) => Some(("best_difficulty"@, decimal(x as nat))),
            None => None,
        },
        Subscription::Voltage => match first_voltage_of(rails_of(state.boards@)) {
            Some(x) => Some(("voltage"@, voltage_text(x))),
            None => None,
        },
        Subscription::BlockHeight => None,
    }
}

/// The line that a subscription is answered with, if there is one.
pub open spec fn published(subscription: Subscription, state: MinerState) -> Option<Seq<char>> {
    match shown(subscription, state) {
        Some((parameter, value)) => Some(response_line(parameter, value)),
        None => None,
    }
}

/// Whether an optional text is the given one.
pub open spec fn same_line(line: Option<String>, text: Option<Seq<char>>) -> bool {
    match line {
        Some(line) => text == Some(line@),
        None => text is None,
    }
}

/// A decimal numeral as text.
fn number_text(n: u64) -> (r: String)
    ensures
        r@ == decimal(n as nat),
{
    let mut out = String::new();
    push_decimal(&mut out, n);
    assert(out@ =~= decimal(n as nat));
    out
}

/// A fan reading fits a non-negative number.
proof fn lemma_fan_reading(readings: Seq<Option<i64>>)
    requires
        forall|i: int| 0 <= i < readings.len() ==> ((#[trigger] readings[i]) matches Some(x) ==> x
            >= 0),
    ensures
        largest_reading(readings) matches Some(m) ==> m >= 0,
{
    law_largest_reading(readings);
}

/// The line that a subscription is answered with, if there is one.
pub fn publish_subscription(subscription: Subscription, state: &MinerState) -> (r: Option<String>)
    ensures
        same_line(r, published(subscription, *state)),
{
    match subscription {
        Subscription::Hashrate => {
            let mut value = String::new();
            push_hundredths(&mut value, round_billionths(state.hashrate));
            assert(value@ =~= hundredths_text(hundredths_of_billionths(state.hashrate as nat)));
            Some(format_response("hashrate", value.as_str()))
        },
        Subscription::Temperature => match max_temperature(state) {
            Some(x) => {
                proof {
                    lemma_temperature_bound(*state);
                }
                let mut value = String::new();
                if x < 0 {
                    push_text(&mut value, "-");
                    push_hundredths(&mut value, round_millionths((-x) as u32));
                } else {
                    push_hundredths(&mut value, round_millionths(x as u32));
                }
                assert(value@ =~= temperature_text(x));
                Some(format_response("chipTemp", value.as_str()))
            },
            None => None,
        },
        Subscription::Power => match total_power(state) {
            Some(x) => {
                let mut value = String::new();
                push_tenths(&mut value, round_sum(x));
                assert(value@ =~= tenths_text(tenths_of_sum(x as nat)));
                Some(format_response("power", value.as_str()))
            },
            None => None,
        },
        Subscription::FanSpeed => match max_fan_rpm(state) {
            Some(x) => {
                proof {
                    lemma_fan_reading(rpm_readings(*state));
                }
                Some(format_response("fan_speed", number_text(x as u64).as_str()))
            },
            None => None,
        },
        Subscription::FanSpeedPercent => match max_fan_percent(state) {
            Some(x) => {
                proof {
                    lemma_fan_reading(percent_readings(*state));
                }
                Some(format_response("fan_speed_percent", number_text(x as u64).as_str()))
            },
            None => None,
        },
        Subscription::Shares => Some(
            format_response("shares", number_text(state.shares_submitted).as_str()),
        ),
        Subscription::BestDifficulty => match state.best_difficulty {
            Some(x) => Some(format_response("best_difficulty", number_text(x).as_str())),
            None => None,
        },
        Subscription::Voltage => match first_voltage(state) {
            Some(x) => Some(format_response("voltage", format_gt_touch_voltage(x).as_str())),
            None => None,
        },
        Subscription::BlockHeight => None,
    }
}

/// A temperature is no more than a 32-bit number.
proof fn lemma_temperature_bound(state: MinerState)
    ensures
        largest_reading(temperature_readings(state)) matches Some(m) ==> i32::MIN <= m <= i32::MAX,
{
    let readings = temperature_readings(state);
    law_largest_reading(readings);
    if let Some(m) = largest_reading(readings) {
        let i = choose|i: int| 0 <= i < readings.len() && readings[i] == Some(m);
        assert(readings[i] == Some(m));
    }
}

/// What the display is told where nothing better is known.
#[derive(Debug)]
pub struct ServiceContext {
    pub default_device_model: Option<String>,
    pub default_asic_model: Option<String>,
    pub default_pool_url: Option<String>,
    pub default_pool_user: Option<String>,
    pub default_mode: Option<String>,
    pub default_microvolts: Option<u32>,
}

/// The texts of lines.
pub open spec fn texts(lines: Seq<String>) -> Seq<Seq<char>> {
    lines.map_values(|line: String| line@)
}

/// An optional text.
pub open spec fn text_in(text: Option<String>) -> Option<Seq<char>> {
    match text {
        Some(t) => Some(t@),
        None => None,
    }
}

/// The response for an optional value.
pub open spec fn optional_line(parameter: Seq<char>, value: Option<Seq<char>>) -> Seq<Seq<char>> {
    match value {
        Some(v) => seq![response_line(parameter, v)],
        None => Seq::<Seq<char>>::empty(),
    }
}

/// The first URL that a source has.
pub open spec fn first_url(sources: Seq<SourceState>) -> Option<Seq<char>>
    decreases sources.len(),
{
    if sources.len() == 0 {
        None
    } else {
        match sources[0].url {
            Some(url) => Some(url@),
            None => first_url(sources.drop_first()),
        }
    }
}

/// The pool's URL: that of the first source that has one, or else the default.
pub open spec fn pool_url(state: MinerState, context: ServiceContext) -> Option<Seq<char>> {
    match first_url(state.sources@) {
        Some(url) => Some(url),
        None => text_in(context.default_pool_url),
    }
}

/// The lines that answer a request for system information.
pub open spec fn system_info(state: MinerState, context: ServiceContext) -> Seq<Seq<char>> {
    let model = if state.boards@.len() > 0 {
        Some(state.boards@[0].model@)
    } else {
        text_in(context.default_device_model)
    };
    let url = pool_url(state, context);
    let pool = match url {
        Some(url) => Some(pool_parts(url).0),
        None => None,
    };
    let port = match url {
        Some(url) => pool_parts(url).1,
        None => None,
    };
    let mode = match context.default_mode {
        Some(mode) => mode@,
        None => "normal"@,
    };
    let voltage = match (first_voltage_of(rails_of(state.boards@)), context.default_microvolts) {
        (Some(v), _) => Some(voltage_text(v)),
        (None, Some(v)) => Some(voltage_text(v)),
        (None, None) => None,
    };
    optional_line("deviceModel"@, model) + optional_line(
        "asicModel"@,
        text_in(context.default_asic_model),
    ) + optional_line("pool"@, pool) + optional_line("poolPort"@, port) + optional_line(
        "poolUser"@,
        text_in(context.default_pool_user),
    ) + optional_line("mode"@, Some(mode)) + optional_line("voltage"@, voltage)
}

/// Appends the response for an optional value.
fn push_optional(lines: &mut Vec<String>, parameter: &str, value: Option<&str>)
    ensures
        texts(final(lines)@) == texts(old(lines)@) + optional_line(
            parameter@,
            match value {
                Some(v) => Some(v@),
                None => None,
            },
        ),
{
    let ghost before = lines@;
    if let Some(v) = value {
        lines.push(format_response(parameter, v));
    }
    assert(texts(lines@) =~= texts(before) + optional_line(
        parameter@,
        match value {
            Some(v) => Some(v@),
            None => None,
        },
    ));
}

/// A view of an optional string.
fn optional_str<'a>(text: &'a Option<String>) -> (r: Option<&'a str>)
    ensures
        match r {
            Some(v) => text_in(*text) == Some(v@),
            None => text_in(*text) is None,
        },
{
    match text {
        Some(t) => Some(t.as_str()),
        None => None,
    }
}

/// The first URL that a source has.
fn find_url<'a>(sources: &'a Vec<SourceState>) -> (r: Option<&'a str>)
    ensures
        match r {
            Some(url) => first_url(sources@) == Some(url@),
            None => first_url(sources@) is None,
        },
{
    let mut i: usize = 0;
    assert(sources@.skip(0) =~= sources@);
    while i < sources.len()
        invariant
            i <= sources@.len(),
            first_url(sources@.skip(i as int)) == first_url(sources@),
        decreases sources@.len() - i,
    {
        assert(sources@.skip(i as int)[0] == sources@[i as int]);
        assert(sources@.skip(i as int).drop_first() =~= sources@.skip(i + 1));
        if let Some(url) = &sources[i].url {
            return Some(url.as_str());
        }
        i = i + 1;
    }
    None
}

/// The lines that answer a request for system information.
pub fn send_system_info(state: &MinerState, context: &ServiceContext) -> (r: Vec<String>)
    ensures
        texts(r@) == system_info(*state, *context),
{
    let mut lines: Vec<String> = Vec::new();
    if state.boards.len() > 0 {
        push_optional(&mut lines, "deviceModel", Some(state.boards[0].model.as_str()));
    } else {
        push_optional(&mut lines, "deviceModel", optional_str(&context.default_device_model));
    }
    push_optional(&mut lines, "asicModel", optional_str(&context.default_asic_model));
    let url = match find_url(&state.sources) {
        Some(url) => Some(url),
        None => optional_str(&context.default_pool_url),
    };
    match url {
        Some(url) => {
            let (pool, port) = split_pool_url(url);
            push_optional(&mut lines, "pool", optional_str(&pool));
            push_optional(&mut lines, "poolPort", optional_str(&port));
        },
        None => {
            push_optional(&mut lines, "pool", None);
            push_optional(&mut lines, "poolPort", None);
        },
    }
    push_optional(&mut lines, "poolUser", optional_str(&context.default_pool_user));
    match &context.default_mode {
        Some(mode) => push_optional(&mut lines, "mode", Some(mode.as_str())),
        None => push_optional(&mut lines, "mode", Some("normal")),
    }
    let voltage: Option<u32> = match first_voltage(state) {
        Some(v) => Some(v),
        None => context.default_microvolts,
    };
    match voltage {
        Some(v) => push_optional(
            &mut lines,
            "voltage",
            Some(format_gt_touch_voltage(v).as_str()),
        ),
        None => push_optional(&mut lines, "voltage", None),
    }
    assert(texts(lines@) =~= system_info(*state, *context));
    lines
}

/// What a connected display has subscribed to, each value once.
#[derive(Debug)]
pub struct SessionState {
    pub subscriptions: Vec<Subscription>,
}

/// The subscriptions with one more.
pub open spec fn with_subscription(subs: Seq<Subscription>, s: Subscription) -> Seq<Subscription> {
    if subs.contains(s) {
        subs
    } else {
        subs.push(s)
    }
}

/// The lines that subscriptions are answered with, in turn.
pub open spec fn published_all(subs: Seq<Subscription>, state: MinerState) -> Seq<Seq<char>>
    decreases subs.len(),
{
    if subs.len() == 0 {
        Seq::<Seq<char>>::empty()
    } else {
        published_all(subs.drop_last(), state) + published_one(subs.last(), state)
    }
}

/// The line that a subscription is answered with, if there is one.
pub open spec fn published_one(s: Subscription, state: MinerState) -> Seq<Seq<char>> {
    match published(s, state) {
        Some(line) => seq![line],
        None => Seq::<Seq<char>>::empty(),
    }
}

/// The lines that answer a line from the display. A subscription is answered at
/// once, and a request for system information too; anything else is passed
/// over.
pub open spec fn answer(
    line: Seq<char>,
    state: MinerState,
    context: ServiceContext,
) -> Seq<Seq<char>> {
    match line_meaning(line) {
        Ok(MessageView::Subscribe(s)) => published_one(s, state),
        Ok(MessageView::Request(p)) => if p == "systemInfo"@ {
            system_info(state, context)
        } else {
            Seq::<Seq<char>>::empty()
        },
        _ => Seq::<Seq<char>>::empty(),
    }
}

impl SessionState {
    pub open spec fn wf(&self) -> bool {
        self.subscriptions@.no_duplicates()
    }

    /// A display that has not subscribed to anything.
    pub fn new() -> (r: SessionState)
        ensures
            r.wf(),
            r.subscriptions@.len() == 0,
    {
        SessionState { subscriptions: Vec::new() }
    }

    /// Whether a value is subscribed to.
    fn has(&self, s: Subscription) -> (r: bool)
        ensures
            r == self.subscriptions@.contains(s),
    {
        let mut i: usize = 0;
        while i < self.subscriptions.len()
            invariant
                i <= self.subscriptions@.len(),
                forall|j: int| 0 <= j < i ==> self.subscriptions@[j] != s,
            decreases self.subscriptions@.len() - i,
        {
            if self.subscriptions[i] == s {
                return true;
            }
            i = i + 1;
        }
        false
    }

    /// Takes a line from the display and returns the lines that answer it.
    pub fn handle_line(
        &mut self,
        line: &str,
        state: &MinerState,
        context: &ServiceContext,
    ) -> (r: Vec<String>)
        requires
            old(self).wf(),
        ensures
            final(self).wf(),
            line_handled(*old(self), line@, *state, *context, r, *final(self)),
    {
        let mut lines: Vec<String> = Vec::new();
        assert(texts(lines@) =~= Seq::<Seq<char>>::empty());
        match parse_line(line) {
            Ok(IncomingMessage::Subscribe(s)) => {
                if !self.has(s) {
                    self.subscriptions.push(s);
                }
                if let Some(text) = publish_subscription(s, state) {
                    lines.push(text);
                }
                assert(texts(lines@) =~= published_one(s, *state));
                lines
            },
            Ok(IncomingMessage::Request { parameter }) => {
                if same_text(parameter.as_str(), "systemInfo") {
                    send_system_info(state, context)
                } else {
                    lines
                }
            },
            _ => lines,
        }
    }

    /// The lines that refresh every subscribed value.
    pub fn refresh(&self, state: &MinerState) -> (r: Vec<String>)
        ensures
            texts(r@) == published_all(self.subscriptions@, *state),
    {
        let mut lines: Vec<String> = Vec::new();
        let mut i: usize = 0;
        assert(texts(lines@) =~= published_all(self.subscriptions@.take(0), *state));
        while i < self.subscriptions.len()
            invariant
                i <= self.subscriptions@.len(),
                texts(lines@) == published_all(self.subscriptions@.take(i as int), *state),
            decreases self.subscriptions@.len() - i,
        {
            let ghost before = lines@;
            let ghost subs = self.subscriptions@;
            let s: Subscription = self.subscriptions[i];
            if let Some(text) = publish_subscription(s, state) {
                lines.push(text);
            }
            assert(texts(lines@) =~= texts(before) + published_one(s, *state));
            assert(subs.take(i + 1).drop_last() =~= subs.take(i as int));
            i = i + 1;
        }
        assert(self.subscriptions@.take(i as int) =~= self.subscriptions@);
        lines
    }
}

/// Whether a terminal may be the display's.
pub fn is_candidate_tty(name: &str) -> (r: bool)
    ensures
        r == (has_prefix(name@, "ttyACM"@) || has_prefix(name@, "ttyUSB"@)),
{
    let chars = chars_of(name);
    let len: usize = chars.len();
    assert(chars@.subrange(0, len as int) =~= name@);
    starts_with(&chars, 0, len, "ttyACM") || starts_with(&chars, 0, len, "ttyUSB")
}

/// What a device and those it hangs on say of themselves.
#[derive(Debug)]
pub struct UsbIdentity {
    pub vendor: Option<String>,
    pub product_id: Option<String>,
    pub product: Option<String>,
}

/// Whether a device is the display: by its vendor and product numbers, or by
/// its name.
pub open spec fn is_gt_touch(id: UsbIdentity) -> bool {
    ||| text_in(id.vendor) == Some("303a"@) && text_in(id.product_id) == Some("4001"@)
    ||| text_in(id.product) == Some("GT Touch CDC"@)
}

/// Whether a device, or one that it hangs on, is the display.
pub fn gt_touch_matches(ancestors: &Vec<UsbIdentity>) -> (r: bool)
    ensures
        r == exists|i: int| 0 <= i < ancestors@.len() && is_gt_touch(#[trigger] ancestors@[i]),
{
    let mut i: usize = 0;
    while i < ancestors.len()
        invariant
            i <= ancestors@.len(),
            forall|j: int| 0 <= j < i ==> !is_gt_touch(#[trigger] ancestors@[j]),
        decreases ancestors@.len() - i,
    {
        let id = &ancestors[i];
        if (is_text(&id.vendor, "303a") && is_text(&id.product_id, "4001")) || is_text(
            &id.product,
            "GT Touch CDC",
        ) {
            assert(is_gt_touch(ancestors@[i as int]));
            return true;
        }
        i = i + 1;
    }
    false
}

/// Whether one text comes before another, or is the same, by its characters.
pub open spec fn in_order(a: Seq<char>, b: Seq<char>) -> bool
    decreases a.len(),
{
    if a.len() == 0 {
        true
    } else if b.len() == 0 {
        false
    } else if a[0] != b[0] {
        (a[0] as int) < (b[0] as int)
    } else {
        in_order(a.drop_first(), b.drop_first())
    }
}

/// Whether one text comes before another, or is the same.
fn ordered(a: &Vec<char>, b: &Vec<char>) -> (r: bool)
    ensures
        r == in_order(a@, b@),
{
    let mut i: usize = 0;
    assert(a@.skip(0) =~= a@ && b@.skip(0) =~= b@);
    while i < a.len() && i < b.len()
        invariant
            i <= a@.len(),
            i <= b@.len(),
            in_order(a@.skip(i as int), b@.skip(i as int)) == in_order(a@, b@),
        decreases a@.len() - i,
    {
        assert(a@.skip(i as int).drop_first() =~= a@.skip(i + 1));
        assert(b@.skip(i as int).drop_first() =~= b@.skip(i + 1));
        let x: char = a[i];
        let y: char = b[i];
        if x != y {
            return less(x, y);
        }
        i = i + 1;
    }
    i == a.len()
}

/// Whether one character comes before another.
fn less(x: char, y: char) -> (r: bool)
    ensures
        r == ((x as int) < (y as int)),
{
    (x as u32) < (y as u32)
}

/// Any two texts are in one order or the other, and the order carries over.
proof fn lemma_order(a: Seq<char>, b: Seq<char>, c: Seq<char>)
    ensures
        in_order(a, a),
        in_order(a, b) || in_order(b, a),
        in_order(a, b) && in_order(b, c) ==> in_order(a, c),
    decreases a.len() + b.len() + c.len(),
{
    if a.len() > 0 && b.len() > 0 && c.len() > 0 {
        lemma_order(a.drop_first(), b.drop_first(), c.drop_first());
    } else if a.len() > 0 && b.len() > 0 {
        lemma_order(a.drop_first(), b.drop_first(), c);
    } else if a.len() > 0 {
        lemma_order(a.drop_first(), b, c);
    }
}

/// The display's path: the configured one, or else the first in order of those
/// that were found. There is none if none was.
pub fn resolve_serial_path(configured: Option<String>, candidates: Vec<String>) -> (r: Option<
    String,
>)
    ensures
        path_resolved(configured, candidates@, r),
{
    if configured.is_some() {
        return configured;
    }
    if candidates.len() == 0 {
        return None;
    }
    let mut best: usize = 0;
    let mut chars = chars_of(candidates[0].as_str());
    let mut i: usize = 1;
    proof {
        lemma_order(chars@, chars@, chars@);
    }
    while i < candidates.len()
        invariant
            best < candidates@.len(),
            i <= candidates@.len(),
            chars@ == candidates@[best as int]@,
            forall|j: int| 0 <= j < i ==> in_order(chars@, (#[trigger] candidates@[j])@),
        decreases candidates@.len() - i,
    {
        let next = chars_of(candidates[i].as_str());
        let ghost before = chars@;
        if !ordered(&chars, &next) {
            proof {
                lemma_order(next@, before, next@);
                assert forall|j: int| 0 <= j < i + 1 implies in_order(
                    next@,
                    (#[trigger] candidates@[j])@,
                ) by {
                    lemma_order(next@, before, candidates@[j]@);
                }
            }
            best = i;
            chars = next;
        }
        i = i + 1;
    }
    assert(texts(candidates@)[best as int] == chars@);
    Some(candidates[best].clone())
}

/// What a line from the display does, and what is answered.
pub open spec fn line_handled(
    before: SessionState,
    line: Seq<char>,
    state: MinerState,
    context: ServiceContext,
    r: Vec<String>,
    after: SessionState,
) -> bool {
    &&& after.subscriptions@ == match line_meaning(line) {
        Ok(MessageView::Subscribe(s)) => with_subscription(before.subscriptions@, s),
        _ => before.subscriptions@,
    }
    &&& texts(r@) == answer(line, state, context)
}

/// Which serial path the display is on.
pub open spec fn path_resolved(
    configured: Option<String>,
    candidates: Seq<String>,
    r: Option<String>,
) -> bool {
    &&& configured is Some ==> r == configured
    &&& configured is None ==> match r {
        Some(path) => texts(candidates).contains(path@) && forall|i: int|
            0 <= i < candidates.len() ==> in_order(path@, (#[trigger] candidates[i])@),
        None => candidates.len() == 0,
    }
}

/// A line with a body and a checksum, right or wrong.
pub open spec fn line_with_sum(body: Seq<char>, sum: u8) -> Seq<char> {
    "$"@ + body + "*"@ + hex_byte(sum)
}

proof fn lemma_line_with_sum(body: Seq<char>, sum: u8)
    ensures
        split_checked(line_with_sum(body, sum)) == Ok::<(Seq<char>, u8), LineErrorView>((body, sum)),
        trim(line_with_sum(body, sum) + "\r\n"@) == line_with_sum(body, sum),
{
    let hex = hex_byte(sum);
    let kept = line_with_sum(body, sum);
    let line = kept + "\r\n"@;
    reveal_strlit("$");
    reveal_strlit("*");
    reveal_strlit("\r\n");
    lemma_hex_byte_reads_back(sum);
    assert(kept[0] == '$' && line[0] == '$');
    assert(crate::text::trim_start(line) == line);
    assert(line.drop_last().drop_last() =~= kept);
    assert(line.last() == '\n');
    assert(line.drop_last().last() == '\r');
    assert(kept.last() == hex[1]);
    reveal_with_fuel(crate::text::trim_end, 3);
    assert(trim(line) == kept);
    let rest = kept.drop_first();
    let at = body.len() as int;
    assert(rest[at] == '*');
    assert(rest.len() == at + 3);
    assert(rest[at + 1] == hex[0] && rest[at + 2] == hex[1]);
    assert(last_at(rest, '*', at));
    assert(rest.contains('*'));
    let chosen = choose|i: int| last_at(rest, '*', i);
    assert(chosen == at);
    assert(rest.take(at) =~= body);
    assert(rest.skip(at + 1) =~= hex);
}

proof fn lemma_no_subscription(body: Seq<char>, sum: u8)
    requires
        body.len() >= 8,
        body.take(8) != "BAP,SUB,"@,
    ensures
        !has_prefix(line_with_sum(body, sum), "$BAP,SUB,"@),
{
    reveal_strlit("$");
    reveal_strlit("BAP,SUB,");
    reveal_strlit("$BAP,SUB,");
    let line = line_with_sum(body, sum);
    if has_prefix(line, "$BAP,SUB,"@) {
        assert(line.take(9) == "$BAP,SUB,"@);
        assert forall|i: int| 0 <= i < 8 implies body.take(8)[i] == "BAP,SUB,"@[i] by {
            assert(line.take(9)[i + 1] == "$BAP,SUB,"@[i + 1]);
            assert(line[i + 1] == body[i]);
        }
        assert(body.take(8) =~= "BAP,SUB,"@);
    }
}

proof fn lemma_fields_split(a: Seq<char>, rest: Seq<char>, n: nat)
    requires
        !a.contains(','),
        n >= 2,
    ensures
        fields_of(a + ","@ + rest, n) == seq![a] + fields_of(rest, (n - 1) as nat),
{
    reveal_strlit(",");
    let s = a + ","@ + rest;
    let at = a.len() as int;
    assert(s[at] == ',');
    assert forall|j: int| 0 <= j < at implies s[j] != ',' by {
        assert(a[j] == s[j]);
        assert(a.contains(a[j]));
    }
    assert(first_at(s, ',', at));
    assert(s.contains(','));
    let chosen = choose|i: int| first_at(s, ',', i);
    assert(chosen == at);
    assert(s.take(at) =~= a);
    assert(s.skip(at + 1) =~= rest);
}

/// A line whose checksum is not that of its body is refused, with both of them.
pub proof fn law_wrong_checksum_is_refused(body: Seq<char>, sum: u8)
    requires
        body.len() >= 8,
        body.take(8) != "BAP,SUB,"@,
        sum != checksum_of(body),
    ensures
        line_meaning(line_with_sum(body, sum) + "\r\n"@) == Err::<MessageView, LineErrorView>(
            LineErrorView::ChecksumMismatch(checksum_of(body), sum),
        ),
{
    lemma_line_with_sum(body, sum);
    lemma_no_subscription(body, sum);
}

/// A request asks for the parameter that it names, and a setting sets it to the
/// rest of the line, commas and all, or to nothing where there is no rest.
pub proof fn law_request_is_understood(parameter: Seq<char>, value: Seq<char>)
    requires
        !parameter.contains(','),
    ensures
        line_meaning(checked_line("BAP,REQ,"@ + parameter) + "\r\n"@) == Ok::<
            MessageView,
            LineErrorView,
        >(MessageView::Request(parameter)),
        line_meaning(checked_line("BAP,SET,"@ + parameter + ","@ + value) + "\r\n"@) == Ok::<
            MessageView,
            LineErrorView,
        >(MessageView::Setting(parameter, value)),
        line_meaning(checked_line("BAP,SET,"@ + parameter) + "\r\n"@) == Ok::<
            MessageView,
            LineErrorView,
        >(MessageView::Setting(parameter, Seq::<char>::empty())),
{
    reveal_strlit("BAP,REQ,");
    reveal_strlit("BAP,SET,");
    reveal_strlit("BAP,SUB,");
    reveal_strlit("BAP");
    reveal_strlit("REQ");
    reveal_strlit("SET");
    reveal_strlit(",");
    let req = "BAP,REQ,"@ + parameter;
    let set = "BAP,SET,"@ + parameter + ","@ + value;
    assert(!"BAP"@.contains(','));
    assert(!"REQ"@.contains(','));
    assert(!"SET"@.contains(','));
    assert("REQ"@ != "SET"@) by {
        assert("REQ"@[0] != "SET"@[0]);
    }
    assert(req.take(8)[4] == 'R' && "BAP,SUB,"@[4] == 'S');
    assert(set.take(8)[5] == 'E' && "BAP,SUB,"@[5] == 'U');
    lemma_line_with_sum(req, checksum_of(req));
    lemma_line_with_sum(set, checksum_of(set));
    lemma_no_subscription(req, checksum_of(req));
    lemma_no_subscription(set, checksum_of(set));
    let req_rest = "REQ"@ + ","@ + parameter;
    assert(req =~= "BAP"@ + ","@ + req_rest);
    lemma_fields_split("BAP"@, req_rest, 4);
    lemma_fields_split("REQ"@, parameter, 3);
    assert(fields_of(parameter, 2) == seq![parameter]);
    assert(fields_of(req, 4) =~= seq!["BAP"@, "REQ"@, parameter]);
    let pair = parameter + ","@ + value;
    let set_rest = "SET"@ + ","@ + pair;
    assert(set =~= "BAP"@ + ","@ + set_rest);
    lemma_fields_split("BAP"@, set_rest, 4);
    lemma_fields_split("SET"@, pair, 3);
    lemma_fields_split(parameter, value, 2);
    assert(fields_of(value, 1) == seq![value]);
    assert(fields_of(set, 4) =~= seq!["BAP"@, "SET"@, parameter, value]);
    let bare = "BAP,SET,"@ + parameter;
    assert(bare.take(8)[5] == 'E');
    lemma_line_with_sum(bare, checksum_of(bare));
    lemma_no_subscription(bare, checksum_of(bare));
    let bare_rest = "SET"@ + ","@ + parameter;
    assert(bare =~= "BAP"@ + ","@ + bare_rest);
    lemma_fields_split("BAP"@, bare_rest, 4);
    lemma_fields_split("SET"@, parameter, 3);
    assert(fields_of(bare, 4) =~= seq!["BAP"@, "SET"@, parameter]);
}

/// A subscription needs no checksum: the name that follows is what is subscribed
/// to, and no two names subscribe to the same.
pub proof fn law_subscription_is_understood(name: Seq<char>, other: Seq<char>)
    requires
        subscription_named(name) is Some,
    ensures
        line_meaning("$BAP,SUB,"@ + name + "\r\n"@) == Ok::<MessageView, LineErrorView>(
            MessageView::Subscribe(subscription_named(name)->0),
        ),
        subscription_named(other) == subscription_named(name) ==> other == name,
{
    reveal_strlit("$BAP,SUB,");
    reveal_strlit("\r\n");
    reveal_strlit("hashrate");
    reveal_strlit("temperature");
    reveal_strlit("power");
    reveal_strlit("fan_speed");
    reveal_strlit("fan_speed_percent");
    reveal_strlit("shares");
    reveal_strlit("best_difficulty");
    reveal_strlit("voltage");
    reveal_strlit("block_height");
    let kept = "$BAP,SUB,"@ + name;
    let line = kept + "\r\n"@;
    assert(name.len() > 0 && !crate::text::is_space(name.last()));
    assert(line[0] == '$');
    assert(crate::text::trim_start(line) == line);
    assert(line.drop_last().drop_last() =~= kept);
    assert(line.last() == '\n');
    assert(line.drop_last().last() == '\r');
    assert(kept.last() == name.last());
    reveal_with_fuel(crate::text::trim_end, 3);
    assert(trim(line) == kept);
    assert(kept.take(9) =~= "$BAP,SUB,"@);
    assert(kept.skip(9) =~= name);
}

proof fn lemma_xor_sum(a: Seq<u8>, b: Seq<u8>)
    ensures
        xor_of(a + b) == xor_of(a) ^ xor_of(b),
    decreases b.len(),
{
    if b.len() == 0 {
        assert(a + b =~= a);
        let x = xor_of(a);
        assert(x ^ 0 == x) by (bit_vector);
    } else {
        lemma_xor_sum(a, b.drop_last());
        assert((a + b).drop_last() =~= a + b.drop_last());
        assert((a + b).last() == b.last());
        let x = xor_of(a);
        let y = xor_of(b.drop_last());
        let z = b.last();
        assert((x ^ y) ^ z == x ^ (y ^ z)) by (bit_vector);
    }
}

/// The checksum tells any two bodies apart that differ in one byte.
pub proof fn law_checksum_detects_a_changed_byte(a: Seq<u8>, x: u8, y: u8, b: Seq<u8>)
    ensures
        xor_of(a + seq![x] + b) == xor_of(a + seq![y] + b) ==> x == y,
{
    lemma_xor_sum(a + seq![x], b);
    lemma_xor_sum(a + seq![y], b);
    lemma_xor_sum(a, seq![x]);
    lemma_xor_sum(a, seq![y]);
    reveal_with_fuel(xor_of, 2);
    let p = xor_of(a);
    let q = xor_of(b);
    assert(seq![x].drop_last() =~= Seq::<u8>::empty());
    assert(seq![y].drop_last() =~= Seq::<u8>::empty());
    assert(xor_of(seq![x]) == 0u8 ^ x);
    assert(xor_of(seq![y]) == 0u8 ^ y);
    assert((p ^ (0u8 ^ x)) ^ q == (p ^ (0u8 ^ y)) ^ q ==> x == y) by (bit_vector);
}

/// The sensors, the rails and the fans of all boards count, those of a board
/// after those of the boards before it.
pub proof fn law_all_boards_count(boards: Seq<BoardState>, board: BoardState)
    ensures
        sensors_of(boards.push(board)) == sensors_of(boards) + board.temperatures@,
        rails_of(boards.push(board)) == rails_of(boards) + board.powers@,
        fans_of(boards.push(board)) == fans_of(boards) + board.fans@,
        sensors_of(Seq::<BoardState>::empty()).len() == 0,
        rails_of(Seq::<BoardState>::empty()).len() == 0,
        fans_of(Seq::<BoardState>::empty()).len() == 0,
{
    assert(boards.push(board).drop_last() =~= boards);
}

/// The voltage shown is that of the first rail that has one.
pub proof fn law_first_voltage(rails: Seq<PowerMeasurement>, i: int)
    ensures
        0 <= i < rails.len() && rails[i].microvolts is Some && (forall|j: int|
            0 <= j < i ==> (#[trigger] rails[j]).microvolts is None) ==> first_voltage_of(rails)
            == rails[i].microvolts,
        (forall|j: int| 0 <= j < rails.len() ==> (#[trigger] rails[j]).microvolts is None)
            ==> first_voltage_of(rails) is None,
    decreases rails.len(),
{
    if rails.len() > 0 && rails[0].microvolts is None {
        let rest = rails.drop_first();
        assert(forall|j: int| 0 <= j < rest.len() ==> (#[trigger] rest[j]) == rails[j + 1]);
        law_first_voltage(rest, i - 1);
    }
}

/// The pool shown is that of the first source that has an address.
pub proof fn law_first_url(sources: Seq<SourceState>, i: int)
    ensures
        0 <= i < sources.len() && sources[i].url is Some && (forall|j: int|
            0 <= j < i ==> (#[trigger] sources[j]).url is None) ==> first_url(sources) == Some(
            sources[i].url->0@,
        ),
        (forall|j: int| 0 <= j < sources.len() ==> (#[trigger] sources[j]).url is None)
            ==> first_url(sources) is None,
    decreases sources.len(),
{
    if sources.len() > 0 && sources[0].url is None {
        let rest = sources.drop_first();
        assert(forall|j: int| 0 <= j < rest.len() ==> (#[trigger] rest[j]) == sources[j + 1]);
        law_first_url(rest, i - 1);
    }
}

/// Rails add up their powers one by one, in single precision; one without a
/// reading adds nothing.
pub proof fn law_powers_add_up(rails: Seq<PowerMeasurement>, rail: PowerMeasurement)
    ensures
        power_of(Seq::<PowerMeasurement>::empty()) == 0,
        rail.milliwatts is None ==> power_of(rails.push(rail)) == power_of(rails),
        rail.milliwatts matches Some(x) ==> power_of(rails.push(rail)) == single_sum(
            power_of(rails),
            single_of_thousandths(x as nat),
        ),
{
    assert(rails.push(rail).drop_last() =~= rails);
}

/// What is read of a sensor or a fan: its temperature, its speed, and how far it
/// is driven, by what it reports or else by what it was set to.
pub proof fn law_readings(state: MinerState, i: int)
    ensures
        temperature_readings(state).len() == sensors_of(state.boards@).len(),
        rpm_readings(state).len() == fans_of(state.boards@).len(),
        percent_readings(state).len() == fans_of(state.boards@).len(),
        0 <= i < sensors_of(state.boards@).len() ==> match sensors_of(state.boards@)[i].microc {
            Some(x) => temperature_readings(state)[i] == Some(x as i64),
            None => temperature_readings(state)[i] is None,
        },
        0 <= i < fans_of(state.boards@).len() ==> {
            let fan = fans_of(state.boards@)[i];
            &&& fan.rpm matches Some(x) ==> rpm_readings(state)[i] == Some(x as i64)
            &&& fan.rpm is None ==> rpm_readings(state)[i] is None
            &&& fan.percent matches Some(x) ==> percent_readings(state)[i] == Some(x as i64)
            &&& fan.percent is None ==> (fan.target_percent matches Some(x) ==> percent_readings(
                state,
            )[i] == Some(x as i64))
            &&& fan.percent is None && fan.target_percent is None ==> percent_readings(
                state,
            )[i] is None
        },
{
}

/// A temperature below zero is shown as the one above it with a minus sign.
pub proof fn law_temperature_sign(microc: i64)
    requires
        0 < microc,
    ensures
        temperature_text((-microc) as i64) == "-"@ + temperature_text(microc),
{
}

/// What each subscription shows: a figure of the miner, or the largest reading of
/// its kind; nothing where there is no reading.
pub proof fn law_subscriptions_show(state: MinerState, x: i64)
    ensures
        shown(Subscription::Hashrate, state) == Some(
            ("hashrate"@, hundredths_text(hundredths_of_billionths(state.hashrate as nat))),
        ),
        shown(Subscription::Shares, state) == Some(
            ("shares"@, decimal(state.shares_submitted as nat)),
        ),
        shown(Subscription::BlockHeight, state) is None,
        state.best_difficulty is None ==> shown(Subscription::BestDifficulty, state) is None,
        state.best_difficulty matches Some(best) ==> shown(Subscription::BestDifficulty, state)
            == Some(("best_difficulty"@, decimal(best as nat))),
        is_largest(temperature_readings(state), x) ==> shown(Subscription::Temperature, state)
            == Some(("chipTemp"@, temperature_text(x))),
        is_largest(rpm_readings(state), x) ==> shown(Subscription::FanSpeed, state) == Some(
            ("fan_speed"@, decimal(x as nat)),
        ),
        is_largest(percent_readings(state), x) ==> shown(Subscription::FanSpeedPercent, state)
            == Some(("fan_speed_percent"@, decimal(x as nat))),
        ({
            let power = power_of(rails_of(state.boards@));
            &&& power == 0 ==> shown(Subscription::Power, state) is None
            &&& power > 0 ==> shown(Subscription::Power, state) == Some(
                ("power"@, tenths_text(tenths_of_sum(power))),
            )
        }),
        first_voltage_of(rails_of(state.boards@)) matches Some(v) ==> shown(
            Subscription::Voltage,
            state,
        ) == Some(("voltage"@, hundredths_text(hundredths_of_hundredfold(v as nat)))),
{
    lemma_is_largest(temperature_readings(state), x);
    lemma_is_largest(rpm_readings(state), x);
    lemma_is_largest(percent_readings(state), x);
}

/// Whether no reading is larger, and one is just as large.
pub open spec fn is_largest(readings: Seq<Option<i64>>, x: i64) -> bool {
    &&& readings.contains(Some(x))
    &&& forall|i: int|
        0 <= i < readings.len() ==> ((#[trigger] readings[i]) matches Some(y) ==> y <= x)
}

proof fn lemma_is_largest(readings: Seq<Option<i64>>, x: i64)
    ensures
        is_largest(readings, x) ==> largest_reading(readings) == Some(x),
{
    law_largest_reading(readings);
    if is_largest(readings, x) {
        let i = choose|i: int| 0 <= i < readings.len() && readings[i] == Some(x);
        assert(readings[i] == Some(x));
        let m = largest_reading(readings)->0;
        let k = choose|k: int| 0 <= k < readings.len() && readings[k] == Some(m);
        assert(readings[k] == Some(m));
    }
}

/// What the system information says: the first board's model, the chip's, the
/// pool and its port, the user, the mode and the voltage, each in a line of its
/// own where it is known; what the miner reports comes before the defaults.
pub proof fn law_system_info(state: MinerState, context: ServiceContext)
    ensures
        ({
            let lines = system_info(state, context);
            &&& state.boards@.len() > 0 ==> lines.contains(
                response_line("deviceModel"@, state.boards@[0].model@),
            )
            &&& state.boards@.len() == 0 ==> (context.default_device_model matches Some(model)
                ==> lines.contains(response_line("deviceModel"@, model@)))
            &&& context.default_asic_model matches Some(model) ==> lines.contains(
                response_line("asicModel"@, model@),
            )
            &&& context.default_pool_user matches Some(user) ==> lines.contains(
                response_line("poolUser"@, user@),
            )
            &&& context.default_mode matches Some(mode) ==> lines.contains(
                response_line("mode"@, mode@),
            )
            &&& context.default_mode is None ==> lines.contains(response_line("mode"@, "normal"@))
            &&& first_url(state.sources@) matches Some(url) ==> lines.contains(
                response_line("pool"@, pool_parts(url).0),
            )
            &&& first_url(state.sources@) is None ==> (context.default_pool_url matches Some(url)
                ==> lines.contains(response_line("pool"@, pool_parts(url@).0)))
            &&& first_url(state.sources@) matches Some(url) ==> (pool_parts(url).1 matches Some(port)
                ==> lines.contains(response_line("poolPort"@, port)))
            &&& first_voltage_of(rails_of(state.boards@)) matches Some(v) ==> lines.contains(
                response_line("voltage"@, voltage_text(v)),
            )
            &&& first_voltage_of(rails_of(state.boards@)) is None ==> (
            context.default_microvolts matches Some(v) ==> lines.contains(
                response_line("voltage"@, voltage_text(v)),
            ))
            &&& 1 <= lines.len() <= 7
            &&& state.boards@.len() > 0 && context.default_asic_model is Some
                && context.default_pool_user is Some && context.default_mode is Some && first_url(
                state.sources@,
            ) is Some && pool_parts(first_url(state.sources@)->0).1 is Some && first_voltage_of(
                rails_of(state.boards@),
            ) is Some ==> lines == seq![
                response_line("deviceModel"@, state.boards@[0].model@),
                response_line("asicModel"@, context.default_asic_model->0@),
                response_line("pool"@, pool_parts(first_url(state.sources@)->0).0),
                response_line("poolPort"@, pool_parts(first_url(state.sources@)->0).1->0),
                response_line("poolUser"@, context.default_pool_user->0@),
                response_line("mode"@, context.default_mode->0@),
                response_line("voltage"@, voltage_text(first_voltage_of(rails_of(state.boards@))->0)),
            ]
        }),
{
    let model = if state.boards@.len() > 0 {
        Some(state.boards@[0].model@)
    } else {
        text_in(context.default_device_model)
    };
    let url = pool_url(state, context);
    let pool = match url {
        Some(url) => Some(pool_parts(url).0),
        None => None,
    };
    let port = match url {
        Some(url) => pool_parts(url).1,
        None => None,
    };
    let mode = match context.default_mode {
        Some(mode) => mode@,
        None => "normal"@,
    };
    let voltage = match (first_voltage_of(rails_of(state.boards@)), context.default_microvolts) {
        (Some(v), _) => Some(voltage_text(v)),
        (None, Some(v)) => Some(voltage_text(v)),
        (None, None) => None,
    };
    let a = optional_line("deviceModel"@, model);
    let b = optional_line("asicModel"@, text_in(context.default_asic_model));
    let c = optional_line("pool"@, pool);
    let d = optional_line("poolPort"@, port);
    let e = optional_line("poolUser"@, text_in(context.default_pool_user));
    let f = optional_line("mode"@, Some(mode));
    let g = optional_line("voltage"@, voltage);
    let lines = system_info(state, context);
    assert(lines == a + b + c + d + e + f + g);
    let i = a.len() as int;
    let j = i + b.len();
    let k = j + c.len();
    let l = k + d.len();
    let m = l + e.len();
    let n = m + f.len();
    assert(a.len() > 0 ==> lines[0] == a[0]);
    assert(b.len() > 0 ==> lines[i] == b[0]);
    assert(c.len() > 0 ==> lines[j] == c[0]);
    assert(d.len() > 0 ==> lines[k] == d[0]);
    assert(e.len() > 0 ==> lines[l] == e[0]);
    assert(f.len() > 0 ==> lines[m] == f[0]);
    assert(g.len() > 0 ==> lines[n] == g[0]);
}

/// What a line from the display does. A subscription is kept, once, beside those
/// before it, and answered with its value; a request for the system information
/// is answered with that; anything else is not answered and changes nothing.
pub proof fn law_line_is_handled(
    before: SessionState,
    line: Seq<char>,
    state: MinerState,
    context: ServiceContext,
    r: Vec<String>,
    after: SessionState,
    other: Subscription,
)
    requires
        line_handled(before, line, state, context, r, after),
    ensures
        match line_meaning(line) {
            Ok(MessageView::Subscribe(s)) => {
                &&& after.subscriptions@.contains(s)
                &&& other != s ==> (after.subscriptions@.contains(other)
                    <==> before.subscriptions@.contains(other))
                &&& match shown(s, state) {
                    Some((parameter, value)) => texts(r@) == seq![response_line(parameter, value)],
                    None => r@.len() == 0,
                }
            },
            Ok(MessageView::Request(p)) => {
                &&& after.subscriptions@ == before.subscriptions@
                &&& p == "systemInfo"@ ==> texts(r@) == system_info(state, context)
                &&& p != "systemInfo"@ ==> r@.len() == 0
            },
            _ => after.subscriptions@ == before.subscriptions@ && r@.len() == 0,
        },
{
    assert(texts(r@).len() == r@.len());
    if let Ok(MessageView::Subscribe(s)) = line_meaning(line) {
        let old_subs = before.subscriptions@;
        let new_subs = after.subscriptions@;
        if !old_subs.contains(s) {
            assert(new_subs[old_subs.len() as int] == s);
            if old_subs.contains(other) {
                let i = choose|i: int| 0 <= i < old_subs.len() && old_subs[i] == other;
                assert(new_subs[i] == other);
            }
            if new_subs.contains(other) && other != s {
                let i = choose|i: int| 0 <= i < new_subs.len() && new_subs[i] == other;
                assert(old_subs[i] == other);
            }
        }
    }
}

/// A refresh sends the values of all subscriptions in the order in which they
/// came, and passes over those without a value.
pub proof fn law_refresh_sends_every_value(
    subs: Seq<Subscription>,
    s: Subscription,
    state: MinerState,
)
    ensures
        published_all(Seq::<Subscription>::empty(), state).len() == 0,
        match shown(s, state) {
            Some((parameter, value)) => published_all(subs.push(s), state) == published_all(
                subs,
                state,
            ).push(response_line(parameter, value)),
            None => published_all(subs.push(s), state) == published_all(subs, state),
        },
{
    assert(subs.push(s).drop_last() =~= subs);
    assert(published_all(subs.push(s), state) == published_all(subs, state) + published_one(
        s,
        state,
    ));
    match shown(s, state) {
        Some((parameter, value)) => {
            assert(published_all(subs.push(s), state) =~= published_all(subs, state).push(
                response_line(parameter, value),
            ));
        },
        None => {
            assert(published_all(subs.push(s), state) =~= published_all(subs, state));
        },
    }
}

/// A path that was configured is used. Otherwise it is the first of the
/// candidates in the order of their characters.
pub proof fn law_serial_path(
    configured: Option<String>,
    candidates: Seq<String>,
    r: Option<String>,
    i: int,
)
    requires
        path_resolved(configured, candidates, r),
    ensures
        configured is Some ==> r == configured,
        configured is None ==> (r is None <==> candidates.len() == 0),
        configured is None && 0 <= i < candidates.len() ==> in_order(r->0@, candidates[i]@),
        configured is None && r is Some ==> exists|k: int|
            0 <= k < candidates.len() && (#[trigger] candidates[k])@ == r->0@,
{
    if configured is None && r is Some {
        let all = texts(candidates);
        let k = choose|k: int| 0 <= k < all.len() && all[k] == r->0@;
        assert(candidates[k]@ == r->0@);
    }
    if configured is None && candidates.len() > 0 && r is None {
        assert(false);
    }
    if configured is None && candidates.len() == 0 && r is Some {
        assert(texts(candidates).contains(r->0@));
    }
}

/// The order is that of the first characters that differ, and a text comes before
/// any that goes on from it.
pub proof fn law_in_order(a: Seq<char>, b: Seq<char>, k: int)
    requires
        0 <= k <= a.len(),
        k <= b.len(),
        a.take(k) == b.take(k),
    ensures
        k < a.len() && k < b.len() && (a[k] as int) < (b[k] as int) ==> in_order(a, b) && !in_order(
            b,
            a,
        ),
        k == a.len() ==> in_order(a, b),
        k == b.len() && k < a.len() ==> !in_order(a, b),
    decreases k,
{
    if k > 0 {
        assert(a[0] == a.take(k)[0] && b[0] == b.take(k)[0]);
        let ra = a.drop_first();
        let rb = b.drop_first();
        assert forall|i: int| 0 <= i < k - 1 implies (#[trigger] ra[i]) == rb[i] by {
            assert(a.take(k)[i + 1] == b.take(k)[i + 1]);
            assert(a.take(k)[i + 1] == a[i + 1]);
            assert(b.take(k)[i + 1] == b[i + 1]);
        }
        assert(ra.take(k - 1) =~= rb.take(k - 1));
        law_in_order(ra, rb, k - 1);
    }
}

/// A display is known by its vendor and product together, or by the name of its
/// product; either alone of the two numbers is not enough.
pub proof fn law_display_is_known(id: UsbIdentity)
    ensures
        text_in(id.product) == Some("GT Touch CDC"@) ==> is_gt_touch(id),
        text_in(id.product) != Some("GT Touch CDC"@) ==> (is_gt_touch(id) <==> text_in(id.vendor)
            == Some("303a"@) && text_in(id.product_id) == Some("4001"@)),
{
}

/// An address of the form `scheme://host:port` is split before the port, and one
/// without a port is left whole.
pub proof fn law_pool_port_is_split(scheme: Seq<char>, host: Seq<char>, port: Seq<char>)
    requires
        !scheme.contains(':'),
        all_digits(port),
    ensures
        pool_parts(scheme + "://"@ + host + ":"@ + port) == (
            scheme + "://"@ + host,
            Some(port),
        ),
        !host.contains(':') ==> pool_parts(scheme + "://"@ + host) == (
            scheme + "://"@ + host,
            None::<Seq<char>>,
        ),
{
    reveal_strlit("://");
    reveal_strlit(":");
    let url = scheme + "://"@ + host + ":"@ + port;
    let bare = scheme + "://"@ + host;
    let n = scheme.len() as int;
    assert forall|j: int| 0 <= j < n implies (#[trigger] scheme[j]) != ':' by {
        assert(scheme.contains(scheme[j]));
    }
    assert forall|j: int| 0 <= j < n implies !separates(url, j) && !separates(bare, j) by {
        assert(url[j] == scheme[j] && bare[j] == scheme[j]);
    }
    assert(url[n] == ':' && url[n + 1] == '/' && url[n + 2] == '/');
    assert(bare[n] == ':' && bare[n + 1] == '/' && bare[n + 2] == '/');
    assert(scheme_at(url, n));
    assert(scheme_at(bare, n));
    let at = choose|i: int| scheme_at(url, i);
    assert(at == n);
    let bare_at = choose|i: int| scheme_at(bare, i);
    assert(bare_at == n);
    let rest = url.skip(n + 3);
    let h = host.len() as int;
    assert(rest =~= host + ":"@ + port);
    assert(rest[h] == ':');
    assert forall|j: int| h < j < rest.len() implies rest[j] != ':' by {
        assert(rest[j] == port[j - h - 1]);
    }
    assert(last_at(rest, ':', h));
    assert(rest.contains(':'));
    let colon = choose|i: int| last_at(rest, ':', i);
    assert(colon == h);
    assert(rest.skip(h + 1) =~= port);
    assert(url.take(n + 3 + h) =~= bare);
    assert(bare.skip(n + 3) =~= host);
}

/// A line that does not begin with a dollar sign, has no checksum, or has one
/// that is no number of one byte is refused for that.
pub proof fn law_malformed_lines(line: Seq<char>, body: Seq<char>, sum: Seq<char>)
    requires
        trim(line) == line,
        !has_prefix(line, "$BAP,SUB,"@),
    ensures
        line.len() == 0 || line[0] != '$' ==> line_meaning(line) == Err::<
            MessageView,
            LineErrorView,
        >(LineErrorView::MissingDollar),
        line == "$"@ + body && !body.contains('*') ==> line_meaning(line) == Err::<
            MessageView,
            LineErrorView,
        >(LineErrorView::MissingSeparator),
        line == "$"@ + body + "*"@ + sum && !sum.contains('*') && hex_byte_value(sum) is None
            ==> line_meaning(line) == Err::<MessageView, LineErrorView>(
            LineErrorView::InvalidChecksum,
        ),
{
    reveal_strlit("$");
    reveal_strlit("*");
    if line == "$"@ + body {
        assert(line.drop_first() =~= body);
    }
    if line == "$"@ + body + "*"@ + sum && !sum.contains('*') {
        let rest = line.drop_first();
        let at = body.len() as int;
        assert(rest =~= body + "*"@ + sum);
        assert(rest[at] == '*');
        assert forall|j: int| at < j < rest.len() implies rest[j] != '*' by {
            assert(rest[j] == sum[j - at - 1]);
            assert(sum.contains(sum[j - at - 1]));
        }
        assert(last_at(rest, '*', at));
        assert(rest.contains('*'));
        let chosen = choose|i: int| last_at(rest, '*', i);
        assert(chosen == at);
        assert(rest.skip(at + 1) =~= sum);
    }
}

/// A body must begin with the protocol's name and go on with a command and a
/// parameter; of commands only requests and settings are known.
pub proof fn law_unknown_bodies(word: Seq<char>, rest: Seq<char>)
    requires
        !word.contains(','),
    ensures
        word != "BAP"@ ==> message_of(fields_of(word + ","@ + rest, 4)) == Err::<
            MessageView,
            LineErrorView,
        >(LineErrorView::MissingPrefix),
        message_of(fields_of("BAP"@, 4)) == Err::<MessageView, LineErrorView>(
            LineErrorView::MissingCommand,
        ),
        message_of(fields_of("BAP,"@ + word, 4)) == Err::<MessageView, LineErrorView>(
            LineErrorView::MissingParameter,
        ),
        word != "REQ"@ && word != "SET"@ ==> message_of(
            fields_of("BAP,"@ + word + ","@ + rest, 4),
        ) == Err::<MessageView, LineErrorView>(LineErrorView::UnsupportedCommand(word)),
{
    reveal_strlit("BAP");
    reveal_strlit("BAP,");
    reveal_strlit(",");
    assert(!"BAP"@.contains(','));
    lemma_fields_split(word, rest, 4);
    assert("BAP,"@ + word =~= "BAP"@ + ","@ + word);
    lemma_fields_split("BAP"@, word, 4);
    assert(fields_of(word, 3) == seq![word]);
    let tail = word + ","@ + rest;
    assert("BAP,"@ + word + ","@ + rest =~= "BAP"@ + ","@ + tail);
    lemma_fields_split("BAP"@, tail, 4);
    lemma_fields_split(word, rest, 3);
    lemma_fields_nonempty(rest, 2);
    let fields = fields_of("BAP,"@ + word + ","@ + rest, 4);
    assert(fields =~= seq!["BAP"@, word] + fields_of(rest, 2));
    assert(fields[1] == word && fields.len() >= 3);
}

} // verus!
