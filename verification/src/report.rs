//! The report: what is read from the measurement tool's JSON result, and the
//! lines that present it.

use crate::binary64::Binary64;
use crate::json::{
    contents_under, document_of, json_document, member, number_of, text_of, top, Leaf,
};
use vstd::prelude::*;

verus! {

/// How many bytes per second make one megabit per second.
pub const BYTES_PER_MEGABIT: u32 = 125000;

/// The values that a result must hold.
#[derive(Clone, Copy, Debug, PartialEq, Eq, Structural)]
pub enum Field {
    DownloadBandwidth,
    UploadBandwidth,
    PingLatency,
    Isp,
    ServerIp,
    ServerCountry,
    ServerLocation,
}

/// Why a result gives no report.
#[derive(Clone, Copy, Debug, PartialEq, Eq, Structural)]
pub enum ReportError {
    /// The text is no JSON document.
    Parse,
    /// The document lacks a value, or holds one of another type in its place.
    Schema(Field),
}

/// One measurement: bandwidths in bytes per second, latency in milliseconds.
#[derive(Debug)]
pub struct Report {
    pub download: Binary64,
    pub upload: Binary64,
    pub latency: Binary64,
    pub isp: String,
    pub server_ip: String,
    pub server_country: String,
    pub server_location: String,
}

/// A report with its texts as sequences of characters.
pub struct ReportView {
    pub download: Binary64,
    pub upload: Binary64,
    pub latency: Binary64,
    pub isp: Seq<char>,
    pub server_ip: Seq<char>,
    pub server_country: Seq<char>,
    pub server_location: Seq<char>,
}

impl View for Report {
    type V = ReportView;

    open spec fn view(&self) -> ReportView {
        ReportView {
            download: self.download,
            upload: self.upload,
            latency: self.latency,
            isp: self.isp@,
            server_ip: self.server_ip@,
            server_country: self.server_country@,
            server_location: self.server_location@,
        }
    }
}

/// A bandwidth in bytes per second as megabits per second, with two decimal
/// places: the double nearest to the bandwidth over 125000, rounded to
/// hundredths.
pub open spec fn megabits_text(bandwidth: Binary64) -> Seq<char> {
    bandwidth.class().quotient(BYTES_PER_MEGABIT as nat).text()
}

/// The report of seven values, or the first of them that is missing, in the
/// order of the parameters.
pub open spec fn assemble(
    download: Option<Binary64>,
    upload: Option<Binary64>,
    latency: Option<Binary64>,
    isp: Option<Seq<char>>,
    server_ip: Option<Seq<char>>,
    server_country: Option<Seq<char>>,
    server_location: Option<Seq<char>>,
) -> Result<ReportView, ReportError> {
    if download is None {
        Err(ReportError::Schema(Field::DownloadBandwidth))
    } else if upload is None {
        Err(ReportError::Schema(Field::UploadBandwidth))
    } else if latency is None {
        Err(ReportError::Schema(Field::PingLatency))
    } else if isp is None {
        Err(ReportError::Schema(Field::Isp))
    } else if server_ip is None {
        Err(ReportError::Schema(Field::ServerIp))
    } else if server_country is None {
        Err(ReportError::Schema(Field::ServerCountry))
    } else if server_location is None {
        Err(ReportError::Schema(Field::ServerLocation))
    } else {
        Ok(
            ReportView {
                download: download->0,
                upload: upload->0,
                latency: latency->0,
                isp: isp->0,
                server_ip: server_ip->0,
                server_country: server_country->0,
                server_location: server_location->0,
            },
        )
    }
}

/// A missing value is never made up for: there is a report if and only if all
/// seven values are there, and then it holds just these.
pub proof fn lemma_report_needs_every_value(
    download: Option<Binary64>,
    upload: Option<Binary64>,
    latency: Option<Binary64>,
    isp: Option<Seq<char>>,
    server_ip: Option<Seq<char>>,
    server_country: Option<Seq<char>>,
    server_location: Option<Seq<char>>,
)
    ensures
        ({
            let report = assemble(
                download,
                upload,
                latency,
                isp,
                server_ip,
                server_country,
                server_location,
            );
            &&& report is Ok <==> download is Some && upload is Some && latency is Some
                && isp is Some && server_ip is Some && server_country is Some
                && server_location is Some
            &&& report is Err ==> report->Err_0 is Schema
            &&& report is Ok ==> report->Ok_0 == (ReportView {
                download: download->0,
                upload: upload->0,
                latency: latency->0,
                isp: isp->0,
                server_ip: server_ip->0,
                server_country: server_country->0,
                server_location: server_location->0,
            })
        }),
{
}

/// The number at the top of the contents.
pub open spec fn number_in(contents: Map<Seq<Seq<char>>, Leaf>) -> Option<Binary64> {
    match top(contents) {
        Leaf::Number(bits) => Some(Binary64 { bits }),
        _ => None,
    }
}

/// The text at the top of the contents.
pub open spec fn text_in(contents: Map<Seq<Seq<char>>, Leaf>) -> Option<Seq<char>> {
    match top(contents) {
        Leaf::Text(chars) => Some(chars),
        _ => None,
    }
}

/// The report that a document holds: the bandwidths under `download` and
/// `upload`, the latency under `ping`, the provider, and the server's address,
/// country and location under `server`.
pub open spec fn report_of_document(document: Map<Seq<Seq<char>>, Leaf>) -> Result<
    ReportView,
    ReportError,
> {
    let server = contents_under(document, "server"@);
    assemble(
        number_in(contents_under(contents_under(document, "download"@), "bandwidth"@)),
        number_in(contents_under(contents_under(document, "upload"@), "bandwidth"@)),
        number_in(contents_under(contents_under(document, "ping"@), "latency"@)),
        text_in(contents_under(document, "isp"@)),
        text_in(contents_under(server, "ip"@)),
        text_in(contents_under(server, "country"@)),
        text_in(contents_under(server, "location"@)),
    )
}

/// The report that a text holds.
pub open spec fn report_of_text(text: Seq<char>) -> Result<ReportView, ReportError> {
    match json_document(text) {
        Some(document) => report_of_document(document),
        None => Err(ReportError::Parse),
    }
}

/// A text gives a report only if it is a JSON document that holds all seven
/// values; every other text gives an error.
pub proof fn lemma_text_without_value_fails(text: Seq<char>)
    ensures
        report_of_text(text) is Ok <==> json_document(text) is Some && {
            let document = json_document(text)->0;
            let server = contents_under(document, "server"@);
            &&& top(contents_under(contents_under(document, "download"@), "bandwidth"@)) is Number
            &&& top(contents_under(contents_under(document, "upload"@), "bandwidth"@)) is Number
            &&& top(contents_under(contents_under(document, "ping"@), "latency"@)) is Number
            &&& top(contents_under(document, "isp"@)) is Text
            &&& top(contents_under(server, "ip"@)) is Text
            &&& top(contents_under(server, "country"@)) is Text
            &&& top(contents_under(server, "location"@)) is Text
        },
        json_document(text) is None <==> report_of_text(text) == Err::<ReportView, ReportError>(
            ReportError::Parse,
        ),
{
}

/// An executable result stands for the given one: the same error, or a report
/// with the same view.
pub open spec fn stands_for(
    got: Result<Report, ReportError>,
    wanted: Result<ReportView, ReportError>,
) -> bool {
    match wanted {
        Ok(view) => got is Ok && got->Ok_0@ == view,
        Err(error) => got == Err::<Report, ReportError>(error),
    }
}

impl ReportView {
    /// The five lines of the report.
    pub open spec fn lines(self) -> Seq<Seq<char>> {
        seq![
            "isp: "@ + self.isp,
            "download: "@ + megabits_text(self.download) + " Mbps"@,
            "upload: "@ + megabits_text(self.upload) + " Mbps"@,
            "latency: "@ + self.latency.class().text() + " ms"@,
            "test server: "@ + self.server_location + ", "@ + self.server_country + " "@
                + self.server_ip,
        ]
    }
}

/// A bandwidth in bytes per second, written as megabits per second with two
/// decimal places.
pub fn convert_bits_to_readable_megabits(bits: Binary64) -> (text: String)
    ensures
        text@ == megabits_text(bits),
{
    bits.classify().divided_by(BYTES_PER_MEGABIT).two_places()
}

fn optional_number(bits: Option<u64>) -> (number: Option<Binary64>)
    ensures
        number == match bits {
            Some(b) => Some(Binary64 { bits: b }),
            None => None,
        },
{
    match bits {
        Some(b) => Some(Binary64::from_bits(b)),
        None => None,
    }
}

fn optional_text(text: Option<&str>) -> (owned: Option<String>)
    ensures
        text is Some <==> owned is Some,
        text is Some ==> owned->0@ == text->0@,
{
    match text {
        Some(t) => Some(t.to_owned()),
        None => None,
    }
}

/// The view of an optional text.
pub open spec fn optional_view(text: Option<String>) -> Option<Seq<char>> {
    match text {
        Some(t) => Some(t@),
        None => None,
    }
}

impl Report {
    /// Puts a report together from the seven values, each present or not. It
    /// fails with the first value that is missing, in the order of the
    /// parameters.
    pub fn from_fields(
        download: Option<Binary64>,
        upload: Option<Binary64>,
        latency: Option<Binary64>,
        isp: Option<String>,
        server_ip: Option<String>,
        server_country: Option<String>,
        server_location: Option<String>,
    ) -> (report: Result<Report, ReportError>)
        ensures
            stands_for(
                report,
                assemble(
                    download,
                    upload,
                    latency,
                    optional_view(isp),
                    optional_view(server_ip),
                    optional_view(server_country),
                    optional_view(server_location),
                ),
            ),
    {
        let download = match download {
            Some(x) => x,
            None => return Err(ReportError::Schema(Field::DownloadBandwidth)),
        };
        let upload = match upload {
            Some(x) => x,
            None => return Err(ReportError::Schema(Field::UploadBandwidth)),
        };
        let latency = match latency {
            Some(x) => x,
            None => return Err(ReportError::Schema(Field::PingLatency)),
        };
        let isp = match isp {
            Some(x) => x,
            None => return Err(ReportError::Schema(Field::Isp)),
        };
        let server_ip = match server_ip {
            Some(x) => x,
            None => return Err(ReportError::Schema(Field::ServerIp)),
        };
        let server_country = match server_country {
            Some(x) => x,
            None => return Err(ReportError::Schema(Field::ServerCountry)),
        };
        let server_location = match server_location {
            Some(x) => x,
            None => return Err(ReportError::Schema(Field::ServerLocation)),
        };
        Ok(Report { download, upload, latency, isp, server_ip, server_country, server_location })
    }

    /// Reads the report from the JSON text that the measurement tool wrote.
    pub fn parse(json: &str) -> (report: Result<Report, ReportError>)
        ensures
            stands_for(report, report_of_text(json@)),
    {
        let document = match document_of(json) {
            Ok(document) => document,
            Err(_) => return Err(ReportError::Parse),
        };
        let server = member(&document, "server");
        Report::from_fields(
            optional_number(number_of(member(member(&document, "download"), "bandwidth"))),
            optional_number(number_of(member(member(&document, "upload"), "bandwidth"))),
            optional_number(number_of(member(member(&document, "ping"), "latency"))),
            optional_text(text_of(member(&document, "isp"))),
            optional_text(text_of(member(server, "ip"))),
            optional_text(text_of(member(server, "country"))),
            optional_text(text_of(member(server, "location"))),
        )
    }

    /// The five lines of the report: provider, download and upload in megabits
    /// per second, latency in milliseconds, and the server.
    pub fn lines(&self) -> (lines: Vec<String>)
        ensures
            lines.deep_view() == self@.lines(),
    {
        let mut isp = "isp: ".to_owned();
        isp.append(self.isp.as_str());

        let mut download = "download: ".to_owned();
        download.append(convert_bits_to_readable_megabits(self.download).as_str());
        download.append(" Mbps");

        let mut upload = "upload: ".to_owned();
        upload.append(convert_bits_to_readable_megabits(self.upload).as_str());
        upload.append(" Mbps");

        let mut latency = "latency: ".to_owned();
        latency.append(self.latency.classify().two_places().as_str());
        latency.append(" ms");

        let mut server = "test server: ".to_owned();
        server.append(self.server_location.as_str());
        server.append(", ");
        server.append(self.server_country.as_str());
        server.append(" ");
        server.append(self.server_ip.as_str());

        let mut lines: Vec<String> = Vec::new();
        lines.push(isp);
        lines.push(download);
        lines.push(upload);
        lines.push(latency);
        lines.push(server);
        assert(lines.deep_view() =~= self@.lines());
        lines
    }
}

/// The lines of the report that a JSON text holds.
pub fn speedtest_results(json: &str) -> (lines: Result<Vec<String>, ReportError>)
    ensures
        match report_of_text(json@) {
            Ok(report) => lines is Ok && lines->Ok_0.deep_view() == report.lines(),
            Err(error) => lines == Err::<Vec<String>, ReportError>(error),
        },
{
    match Report::parse(json) {
        Ok(report) => Ok(report.lines()),
        Err(error) => Err(error),
    }
}

} // verus!
