//! One probe result, and its rendering as a line of CSV, JSON or plain
//! text.

use crate::csv;
use crate::elapsed::{elapsed_text, format_elapsed, lemma_elapsed_text_chars, Elapsed};
use crate::json;
use crate::status::HttpStatus;
use crate::text::{decimal, lemma_decimal, one_line};
use crate::timestamp::{civil_text, is_stamp_text, lemma_civil_text_chars, Timestamp};
use vstd::prelude::*;
use vstd::string::StringExecFns;

verus! {

/// The format of a rendered line.
#[derive(Clone, Copy, Debug, PartialEq, Eq, Structural)]
pub enum Output {
    Csv,
    Json,
    Text,
}

/// The four values of a line, as text.
pub struct Fields {
    pub datetime: Seq<char>,
    pub url: Seq<char>,
    pub status: Seq<char>,
    pub response_time: Seq<char>,
}

/// The four values as the fields of a CSV record, in order.
pub open spec fn csv_fields(f: Fields) -> Seq<Seq<char>> {
    seq![f.datetime, f.url, f.status, f.response_time]
}

/// The four values under their JSON keys, in order.
pub open spec fn json_members(f: Fields) -> Seq<(Seq<char>, Seq<char>)> {
    seq![
        ("datetime"@, f.datetime),
        ("url"@, f.url),
        ("statusCode"@, f.status),
        ("responseTime"@, f.response_time),
    ]
}

/// The four values with a space between each two.
pub open spec fn text_line(f: Fields) -> Seq<char> {
    f.datetime + seq![' '] + f.url + seq![' '] + f.status + seq![' '] + f.response_time
}

/// The line for the four values in the format `output`.
pub open spec fn line_text(f: Fields, output: Output) -> Seq<char> {
    match output {
        Output::Csv => csv::record_text(csv_fields(f)),
        Output::Json => json::object_text(json_members(f)),
        Output::Text => text_line(f),
    }
}

/// Renders four values as one line, without a line break at its end.
///
/// CSV: the values as double-quoted fields with commas between them, a
/// double quote inside a value doubled. JSON: one object with the keys
/// `datetime`, `url`, `statusCode` and `responseTime`, in this order, each
/// value a string. Text: the values with a space between each two, as they
/// are.
pub fn format_line(
    datetime: &str,
    url: &str,
    status: &str,
    response_time: &str,
    output: Output,
) -> (r: String)
    ensures
        r@ == line_text(
            (Fields {
                datetime: datetime@,
                url: url@,
                status: status@,
                response_time: response_time@,
            }),
            output,
        ),
{
    let ghost f = Fields {
        datetime: datetime@,
        url: url@,
        status: status@,
        response_time: response_time@,
    };
    let mut out = String::new();
    match output {
        Output::Csv => {
            csv::push_quoted(&mut out, datetime);
            out.push(',');
            csv::push_quoted(&mut out, url);
            out.push(',');
            csv::push_quoted(&mut out, status);
            out.push(',');
            csv::push_quoted(&mut out, response_time);
            proof {
                lemma_record_text_four(csv_fields(f));
                assert(out@ =~= csv::record_text(csv_fields(f)));
            }
        },
        Output::Json => {
            out.push('{');
            json::push_member(&mut out, "datetime", datetime);
            out.push(',');
            json::push_member(&mut out, "url", url);
            out.push(',');
            json::push_member(&mut out, "statusCode", status);
            out.push(',');
            json::push_member(&mut out, "responseTime", response_time);
            out.push('}');
            proof {
                lemma_members_text_four(json_members(f));
                assert(out@ =~= json::object_text(json_members(f)));
            }
        },
        Output::Text => {
            out.append(datetime);
            out.push(' ');
            out.append(url);
            out.push(' ');
            out.append(status);
            out.push(' ');
            out.append(response_time);
            assert(out@ =~= text_line(f));
        },
    }
    out
}

/// The result of one probe: when it was sent, to which URL, the status of
/// the response if one came, and how long it took.
#[derive(Clone, Debug, PartialEq, Eq)]
pub struct OutputMessage {
    datetime: Timestamp,
    url: String,
    status_code: Option<HttpStatus>,
    elapsed: Elapsed,
}

/// An `OutputMessage` with its URL as a sequence of characters.
pub struct Record {
    pub datetime: Timestamp,
    pub url: Seq<char>,
    pub status_code: Option<HttpStatus>,
    pub elapsed: Elapsed,
}

impl View for OutputMessage {
    type V = Record;

    closed spec fn view(&self) -> Record {
        Record {
            datetime: self.datetime,
            url: self.url@,
            status_code: self.status_code,
            elapsed: self.elapsed,
        }
    }
}

/// What stands in the place of the status where no response came.
pub open spec fn absent_status_text() -> Seq<char> {
    seq!['-']
}

/// The status as it is rendered: the code in decimal digits, or the
/// placeholder where no response came.
pub open spec fn status_field(status_code: Option<HttpStatus>) -> Seq<char> {
    match status_code {
        Some(status) => decimal(status.code() as nat),
        None => absent_status_text(),
    }
}

/// The four values of a record as text: the timestamp as `YYYY-MM-DD
/// HH:MM:SS`, the URL as it is, the status code, and the elapsed time as
/// `seconds.milliseconds`.
pub open spec fn fields_of(r: Record) -> Fields {
    Fields {
        datetime: civil_text(r.datetime@),
        url: r.url,
        status: status_field(r.status_code),
        response_time: elapsed_text(r.elapsed.secs(), r.elapsed.millis()),
    }
}

/// The line for `r` in the format `output`.
pub open spec fn rendered(r: Record, output: Output) -> Seq<char> {
    line_text(fields_of(r), output)
}

impl OutputMessage {
    /// The result of a probe of `url` sent at `datetime`; `status_code` is
    /// `None` where no response came.
    pub fn new(
        datetime: Timestamp,
        url: String,
        status_code: Option<HttpStatus>,
        elapsed: Elapsed,
    ) -> (r: Self)
        ensures
            r@ == (Record { datetime, url: url@, status_code, elapsed }),
    {
        Self { datetime, url, status_code, elapsed }
    }

    /// When the probe was sent.
    pub fn datetime(&self) -> (r: Timestamp)
        ensures
            r == self@.datetime,
    {
        self.datetime
    }

    /// The URL that was probed, as it was given.
    pub fn url(&self) -> (r: &str)
        ensures
            r@ == self@.url,
    {
        self.url.as_str()
    }

    /// The status of the response, or `None` where no response came.
    pub fn status_code(&self) -> (r: Option<HttpStatus>)
        ensures
            r == self@.status_code,
    {
        self.status_code
    }

    /// How long the probe took.
    pub fn elapsed(&self) -> (r: Elapsed)
        ensures
            r == self@.elapsed,
    {
        self.elapsed
    }

    /// Renders the result as one line in the format `output`, without a
    /// line break at its end. The status is rendered as its code in decimal
    /// digits, a missing status as `-`.
    pub fn to_formatted(&self, output: Output) -> (r: String)
        ensures
            r@ == rendered(self@, output),
    {
        let dt = self.datetime.format();
        let st = match self.status_code {
            Some(status) => status.text(),
            None => {
                let mut absent = String::new();
                absent.push('-');
                assert(absent@ =~= absent_status_text());
                absent
            },
        };
        let rt = format_elapsed(self.elapsed);
        format_line(dt.as_str(), self.url.as_str(), st.as_str(), rt.as_str(), output)
    }
}

/// A record of four fields, written out.
proof fn lemma_record_text_four(v: Seq<Seq<char>>)
    requires
        v.len() == 4,
    ensures
        csv::record_text(v) == csv::quoted(v[0]) + seq![','] + csv::quoted(v[1]) + seq![',']
            + csv::quoted(v[2]) + seq![','] + csv::quoted(v[3]),
{
    let v1 = v.skip(1);
    let v2 = v1.skip(1);
    let v3 = v2.skip(1);
    assert(csv::record_text(v3) == csv::quoted(v[3]));
    assert(csv::record_text(v2) == csv::quoted(v[2]) + seq![','] + csv::record_text(v3));
    assert(csv::record_text(v1) == csv::quoted(v[1]) + seq![','] + csv::record_text(v2));
    assert(csv::record_text(v) =~= csv::quoted(v[0]) + seq![','] + csv::quoted(v[1]) + seq![',']
        + csv::quoted(v[2]) + seq![','] + csv::quoted(v[3]));
}

/// Four members, written out.
proof fn lemma_members_text_four(m: Seq<(Seq<char>, Seq<char>)>)
    requires
        m.len() == 4,
    ensures
        json::members_text(m) == json::member_text(m[0].0, m[0].1) + seq![',']
            + json::member_text(m[1].0, m[1].1) + seq![','] + json::member_text(m[2].0, m[2].1)
            + seq![','] + json::member_text(m[3].0, m[3].1),
{
    let m1 = m.skip(1);
    let m2 = m1.skip(1);
    let m3 = m2.skip(1);
    assert(json::members_text(m3) == json::member_text(m[3].0, m[3].1));
    assert(json::members_text(m2) == json::member_text(m[2].0, m[2].1) + seq![',']
        + json::members_text(m3));
    assert(json::members_text(m1) == json::member_text(m[1].0, m[1].1) + seq![',']
        + json::members_text(m2));
    assert(json::members_text(m) =~= json::member_text(m[0].0, m[0].1) + seq![',']
        + json::member_text(m[1].0, m[1].1) + seq![','] + json::member_text(m[2].0, m[2].1)
        + seq![','] + json::member_text(m[3].0, m[3].1));
}

/// Every JSON line is a JSON object, whatever the four values hold, and
/// reads back as these values under the keys `datetime`, `url`,
/// `statusCode` and `responseTime`, in this order.
pub proof fn lemma_json_line_is_object(f: Fields)
    ensures
        json::read_object(line_text(f, Output::Json)) == Some(
            seq![
                ("datetime"@, f.datetime),
                ("url"@, f.url),
                ("statusCode"@, f.status),
                ("responseTime"@, f.response_time),
            ],
        ),
{
    json::lemma_object_reads_back(json_members(f));
}

/// Every CSV line is a record of exactly four double-quoted fields with
/// commas between them, whatever the four values hold, and reads back as
/// these values.
pub proof fn lemma_csv_line_has_four_fields(f: Fields)
    ensures
        csv::read_record(line_text(f, Output::Csv)) == Some(
            seq![f.datetime, f.url, f.status, f.response_time],
        ),
        csv::read_record(line_text(f, Output::Csv))->0.len() == 4,
{
    csv::lemma_record_reads_back(csv_fields(f));
}

/// The JSON line of every record is a JSON object with the keys
/// `datetime`, `url`, `statusCode` and `responseTime`, and reads back as
/// the four values of the record.
pub proof fn lemma_rendered_json_is_object(r: Record)
    ensures
        json::read_object(rendered(r, Output::Json)) == Some(json_members(fields_of(r))),
{
    lemma_json_line_is_object(fields_of(r));
}

/// The CSV line of every record has exactly four double-quoted,
/// comma-separated fields, and reads back as the four values of the record.
pub proof fn lemma_rendered_csv_has_four_fields(r: Record)
    ensures
        csv::read_record(rendered(r, Output::Csv)) == Some(csv_fields(fields_of(r))),
        csv_fields(fields_of(r)).len() == 4,
{
    lemma_csv_line_has_four_fields(fields_of(r));
}

/// Every JSON line holds no line feed, whatever the four values hold.
pub proof fn lemma_json_line_is_one_line(f: Fields)
    ensures
        one_line(line_text(f, Output::Json)),
{
    json::lemma_object_text_one_line(json_members(f));
}

/// Of the four values of a record, only the URL can hold a line feed, a
/// double quote, a backslash or a control character.
proof fn lemma_fields_are_plain(r: Record)
    ensures
        one_line(fields_of(r).datetime),
        one_line(fields_of(r).status),
        one_line(fields_of(r).response_time),
        csv::quote_free(fields_of(r).datetime),
        csv::quote_free(fields_of(r).status),
        csv::quote_free(fields_of(r).response_time),
        json::escape_free(fields_of(r).datetime),
        json::escape_free(fields_of(r).status),
        json::escape_free(fields_of(r).response_time),
{
    lemma_civil_text_chars(r.datetime@);
    assert(is_stamp_text(fields_of(r).datetime));
    lemma_elapsed_text_chars(r.elapsed.secs(), r.elapsed.millis());
    match r.status_code {
        Some(status) => {
            lemma_decimal(status.code() as nat);
        },
        None => {},
    }
}

/// The line of a record, in any format, holds no line feed, unless the URL
/// does.
pub proof fn lemma_rendered_is_one_line(r: Record, output: Output)
    requires
        one_line(r.url),
    ensures
        one_line(rendered(r, output)),
{
    let f = fields_of(r);
    lemma_fields_are_plain(r);
    match output {
        Output::Csv => {
            csv::lemma_record_text_one_line(csv_fields(f));
        },
        Output::Json => {
            lemma_json_line_is_one_line(f);
        },
        Output::Text => {},
    }
}

/// The four values between double quotes, as they are, with commas between
/// them.
pub open spec fn plain_csv_line(f: Fields) -> Seq<char> {
    seq!['"'] + f.datetime + seq!['"', ',', '"'] + f.url + seq!['"', ',', '"'] + f.status + seq![
        '"',
        ',',
        '"',
    ] + f.response_time + seq!['"']
}

/// Where none of the four values holds a double quote, the CSV line is the
/// values as they are, each between double quotes, with a comma and nothing
/// else between each two.
pub proof fn lemma_csv_line_is_plain(f: Fields)
    requires
        csv::quote_free(f.datetime),
        csv::quote_free(f.url),
        csv::quote_free(f.status),
        csv::quote_free(f.response_time),
    ensures
        line_text(f, Output::Csv) == plain_csv_line(f),
{
    lemma_record_text_four(csv_fields(f));
    csv::lemma_escape_plain(f.datetime);
    csv::lemma_escape_plain(f.url);
    csv::lemma_escape_plain(f.status);
    csv::lemma_escape_plain(f.response_time);
    assert(line_text(f, Output::Csv) =~= plain_csv_line(f));
}

/// The CSV line of a record whose URL holds no double quote is the
/// timestamp, the URL, the status code and the elapsed time as they are,
/// each between double quotes, with a comma and nothing else between each
/// two.
pub proof fn lemma_rendered_csv_is_plain(r: Record)
    requires
        csv::quote_free(r.url),
    ensures
        rendered(r, Output::Csv) == plain_csv_line(fields_of(r)),
{
    lemma_fields_are_plain(r);
    lemma_csv_line_is_plain(fields_of(r));
}

/// A key and a value as they are, each between double quotes, with a
/// colon and a space between them.
pub open spec fn plain_member(key: Seq<char>, value: Seq<char>) -> Seq<char> {
    seq!['"'] + key + seq!['"', ':', ' ', '"'] + value + seq!['"']
}

/// The four values as they are under their keys, between braces, with a
/// comma and nothing else between each two members.
pub open spec fn plain_json_line(f: Fields) -> Seq<char> {
    seq!['{'] + plain_member("datetime"@, f.datetime) + seq![','] + plain_member("url"@, f.url)
        + seq![','] + plain_member("statusCode"@, f.status) + seq![','] + plain_member(
        "responseTime"@,
        f.response_time,
    ) + seq!['}']
}

/// The four keys need no escape.
proof fn lemma_keys_are_plain()
    ensures
        json::escape_free("datetime"@),
        json::escape_free("url"@),
        json::escape_free("statusCode"@),
        json::escape_free("responseTime"@),
{
    reveal_strlit("datetime");
    reveal_strlit("url");
    reveal_strlit("statusCode");
    reveal_strlit("responseTime");
}

/// Where none of the four values holds a double quote, a backslash or a
/// control character, the JSON line is the values as they are, each between
/// double quotes behind its key.
pub proof fn lemma_json_line_is_plain(f: Fields)
    requires
        json::escape_free(f.datetime),
        json::escape_free(f.url),
        json::escape_free(f.status),
        json::escape_free(f.response_time),
    ensures
        line_text(f, Output::Json) == plain_json_line(f),
{
    lemma_keys_are_plain();
    lemma_members_text_four(json_members(f));
    json::lemma_member_text_plain("datetime"@, f.datetime);
    json::lemma_member_text_plain("url"@, f.url);
    json::lemma_member_text_plain("statusCode"@, f.status);
    json::lemma_member_text_plain("responseTime"@, f.response_time);
}

/// The JSON line of a record whose URL holds no double quote, no backslash
/// and no control character is the timestamp, the URL, the status code and
/// the elapsed time as they are, each between double quotes behind its key.
pub proof fn lemma_rendered_json_is_plain(r: Record)
    requires
        json::escape_free(r.url),
    ensures
        rendered(r, Output::Json) == plain_json_line(fields_of(r)),
{
    lemma_fields_are_plain(r);
    lemma_json_line_is_plain(fields_of(r));
}

} // verus!
