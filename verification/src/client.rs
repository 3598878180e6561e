//! The wire-shape record, the domain record, and the client that ties URL
//! construction, response decoding, conversion and output together. The
//! network calls themselves happen outside the library; the client hands out
//! the request URL and consumes the response body text.

use vstd::prelude::*;
use vstd::string::StringExecFns;

use crate::XkcdError;
use crate::cli::Args;
use crate::cli::OutFormat;
use crate::outside;
use crate::render;

verus! {

/// The exact JSON shape returned by the remote API.
pub struct ComicResponse {
    pub month: String,
    pub num: usize,
    pub link: String,
    pub year: String,
    pub news: String,
    pub safe_title: String,
    pub transcript: String,
    pub alt: String,
    pub img: String,
    pub title: String,
    pub day: String,
}

impl ComicResponse {
    /// Assembles a record from the decoded fields; any missing field is a
    /// parse failure.
    pub fn from_fields(
        month: Option<String>,
        num: Option<usize>,
        link: Option<String>,
        year: Option<String>,
        news: Option<String>,
        safe_title: Option<String>,
        transcript: Option<String>,
        alt: Option<String>,
        img: Option<String>,
        title: Option<String>,
        day: Option<String>,
    ) -> (r: Result<ComicResponse, XkcdError>)
        ensures
            r is Ok <==> (month is Some && num is Some && link is Some && year is Some
                && news is Some && safe_title is Some && transcript is Some && alt is Some
                && img is Some && title is Some && day is Some),
            r matches Ok(c) ==> Some(c.month) == month && Some(c.num) == num && Some(c.link)
                == link && Some(c.year) == year && Some(c.news) == news && Some(c.safe_title)
                == safe_title && Some(c.transcript) == transcript && Some(c.alt) == alt && Some(
                c.img,
            ) == img && Some(c.title) == title && Some(c.day) == day,
            r matches Err(e) ==> e == XkcdError::ParseError,
    {
        let month = match month {
            Some(v) => v,
            None => { return Err(XkcdError::ParseError) },
        };
        let num = match num {
            Some(v) => v,
            None => { return Err(XkcdError::ParseError) },
        };
        let link = match link {
            Some(v) => v,
            None => { return Err(XkcdError::ParseError) },
        };
        let year = match year {
            Some(v) => v,
            None => { return Err(XkcdError::ParseError) },
        };
        let news = match news {
            Some(v) => v,
            None => { return Err(XkcdError::ParseError) },
        };
        let safe_title = match safe_title {
            Some(v) => v,
            None => { return Err(XkcdError::ParseError) },
        };
        let transcript = match transcript {
            Some(v) => v,
            None => { return Err(XkcdError::ParseError) },
        };
        let alt = match alt {
            Some(v) => v,
            None => { return Err(XkcdError::ParseError) },
        };
        let img = match img {
            Some(v) => v,
            None => { return Err(XkcdError::ParseError) },
        };
        let title = match title {
            Some(v) => v,
            None => { return Err(XkcdError::ParseError) },
        };
        let day = match day {
            Some(v) => v,
            None => { return Err(XkcdError::ParseError) },
        };
        Ok(
            ComicResponse {
                month,
                num,
                link,
                year,
                news,
                safe_title,
                transcript,
                alt,
                img,
                title,
                day,
            },
        )
    }

    /// Decodes the metadata response body: succeeds exactly when all eleven
    /// required fields are present with the right types, each struct field
    /// taking the like-named JSON value; every failure is a parse failure.
    pub fn from_json(s: &str) -> (r: Result<ComicResponse, XkcdError>)
        ensures
            r is Ok <==> response_decodes(s@),
            r matches Ok(c) ==> response_matches(s@, c),
            r matches Err(e) ==> e == XkcdError::ParseError,
    {
        let num: Option<usize> = match outside::lookup_u64_field(s, "num") {
            Some(n) => {
                if n <= usize::MAX as u64 {
                    Some(n as usize)
                } else {
                    None
                }
            },
            None => None,
        };
        ComicResponse::from_fields(
            outside::lookup_str_field(s, "month"),
            num,
            outside::lookup_str_field(s, "link"),
            outside::lookup_str_field(s, "year"),
            outside::lookup_str_field(s, "news"),
            outside::lookup_str_field(s, "safe_title"),
            outside::lookup_str_field(s, "transcript"),
            outside::lookup_str_field(s, "alt"),
            outside::lookup_str_field(s, "img"),
            outside::lookup_str_field(s, "title"),
            outside::lookup_str_field(s, "day"),
        )
    }
}

/// Whether the `num` member of the document is an unsigned integer that
/// also fits the machine word.
pub open spec fn num_field_fits(doc: Seq<char>) -> bool {
    match outside::json_u64_field(doc, "num"@) {
        Some(n) => n <= usize::MAX as u64,
        None => false,
    }
}

/// Whether the document decodes to a `ComicResponse`: all eleven required
/// fields present with the right types.
pub open spec fn response_decodes(doc: Seq<char>) -> bool {
    outside::json_str_field(doc, "month"@) is Some && num_field_fits(doc)
        && outside::json_str_field(doc, "link"@) is Some && outside::json_str_field(
        doc,
        "year"@,
    ) is Some && outside::json_str_field(doc, "news"@) is Some && outside::json_str_field(
        doc,
        "safe_title"@,
    ) is Some && outside::json_str_field(doc, "transcript"@) is Some && outside::json_str_field(
        doc,
        "alt"@,
    ) is Some && outside::json_str_field(doc, "img"@) is Some && outside::json_str_field(
        doc,
        "title"@,
    ) is Some && outside::json_str_field(doc, "day"@) is Some
}

/// Whether each field of the record equals the like-named value of the
/// document.
pub open spec fn response_matches(doc: Seq<char>, c: ComicResponse) -> bool {
    outside::json_str_field(doc, "month"@) == Some(c.month@) && outside::json_u64_field(
        doc,
        "num"@,
    ) == Some(c.num as u64) && outside::json_str_field(doc, "link"@) == Some(c.link@)
        && outside::json_str_field(doc, "year"@) == Some(c.year@) && outside::json_str_field(
        doc,
        "news"@,
    ) == Some(c.news@) && outside::json_str_field(doc, "safe_title"@) == Some(c.safe_title@)
        && outside::json_str_field(doc, "transcript"@) == Some(c.transcript@)
        && outside::json_str_field(doc, "alt"@) == Some(c.alt@) && outside::json_str_field(
        doc,
        "img"@,
    ) == Some(c.img@) && outside::json_str_field(doc, "title"@) == Some(c.title@)
        && outside::json_str_field(doc, "day"@) == Some(c.day@)
}

/// The date string of a comic: the three date fields joined with literal
/// hyphens, exactly `day-month-year`, with no calendar validation.
pub open spec fn date_of(day: Seq<char>, month: Seq<char>, year: Seq<char>) -> Seq<char> {
    day + "-"@ + month + "-"@ + year
}

/// The user-facing record derived from a `ComicResponse`.
pub struct Comic {
    pub title: String,
    pub num: usize,
    pub date: String,
    pub desc: String,
    pub img_url: String,
}

impl Comic {
    /// The one-way projection from the wire shape: title and number carried
    /// over, the date composed from day, month and year, the description
    /// taken from the alt text, the image URL taken from the img field.
    pub fn from_response(cr: ComicResponse) -> (c: Comic)
        ensures
            c.title@ == cr.title@,
            c.num == cr.num,
            c.date@ == date_of(cr.day@, cr.month@, cr.year@),
            c.desc@ == cr.alt@,
            c.img_url@ == cr.img@,
    {
        let mut date = cr.day;
        date.append("-");
        date.append(cr.month.as_str());
        date.append("-");
        date.append(cr.year.as_str());
        Comic {
            title: cr.title,
            num: cr.num,
            date,
            desc: cr.alt,
            img_url: cr.img,
        }
    }

    /// Renders the comic in the requested format.
    pub fn render(&self, of: OutFormat) -> (r: String)
        ensures
            of == OutFormat::Text ==> r@ == render::text_of(
                self.title@,
                self.num as nat,
                self.date@,
                self.desc@,
                self.img_url@,
            ),
            of == OutFormat::Json ==> r@ == render::json_of(
                self.title@,
                self.num as nat,
                self.date@,
                self.desc@,
                self.img_url@,
            ),
    {
        match of {
            OutFormat::Text => render::render_text(
                self.title.as_str(),
                self.num,
                self.date.as_str(),
                self.desc.as_str(),
                self.img_url.as_str(),
            ),
            OutFormat::Json => render::render_json(
                self.title.as_str(),
                self.num,
                self.date.as_str(),
                self.desc.as_str(),
                self.img_url.as_str(),
            ),
        }
    }

    /// Renders the comic and writes it to standard output. Encoding cannot
    /// fail for well-formed string and integer data, so this always
    /// succeeds.
    pub fn print(&self, of: OutFormat) -> (r: Result<(), XkcdError>)
        ensures
            r is Ok,
    {
        let s = self.render(of);
        outside::write_stdout(s.as_str());
        Ok(())
    }

    /// The local file name for the comic's image: the final path segment of
    /// the image URL. Succeeds exactly when the URL parses and has path
    /// segments; an unparseable URL, or one without path segments, is an
    /// invalid-URL failure.
    pub fn image_file_name(&self) -> (r: Result<String, XkcdError>)
        ensures
            r is Ok <==> outside::url_segments_of(self.img_url@) is Some,
            r matches Ok(n) ==> (outside::url_segments_of(self.img_url@) matches Some(g)
                && g.len() >= 1 && n@ == g[g.len() - 1]),
            r matches Err(e) ==> e == XkcdError::InvalidUrlError,
    {
        match outside::lookup_url_segments(self.img_url.as_str()) {
            None => Err(XkcdError::InvalidUrlError),
            Some(segs) => {
                match last_segment(&segs) {
                    Some(name) => {
                        proof {
                            assert(segs.deep_view().len() == segs@.len());
                            assert(segs.deep_view()[segs@.len() - 1] == segs@[segs@.len() - 1]@);
                        }
                        Ok(name)
                    },
                    None => Err(XkcdError::InvalidUrlError),
                }
            },
        }
    }
}

/// The last of a list of path segments, if there is one.
pub fn last_segment(segs: &Vec<String>) -> (r: Option<String>)
    ensures
        r is None <==> segs@.len() == 0,
        r matches Some(s) ==> s@ == segs@[segs@.len() - 1]@,
{
    if segs.len() == 0 {
        None
    } else {
        Some(segs[segs.len() - 1].clone())
    }
}

/// The request URL for a configuration: the base joined with
/// `/<num>/info.0.json` when a specific comic is requested, with
/// `/info.0.json` (the latest comic) otherwise.
pub open spec fn request_url_spec(num: Option<usize>) -> Seq<char> {
    match num {
        Some(n) => crate::BASE_URL@ + "/"@ + render::dec_rep(n as nat) + "/info.0.json"@,
        None => crate::BASE_URL@ + "/info.0.json"@,
    }
}

/// The choice between latest and explicit comic is the only difference in
/// request construction, and the two URLs always differ.
pub proof fn lemma_latest_url_differs(n: usize)
    ensures
        request_url_spec(Some(n)) != request_url_spec(None),
{
    render::lemma_dec_rep_nonempty(n as nat);
    assert(request_url_spec(Some(n)).len() != request_url_spec(None).len());
}

/// Orchestrates one comic retrieval, up to the edges where the network and
/// the file system take over.
pub struct XkcdClient {
    pub args: Args,
}

impl XkcdClient {
    pub fn new(args: Args) -> (r: XkcdClient)
        ensures
            r.args == args,
    {
        XkcdClient { args }
    }

    /// Builds the metadata request URL from the configuration.
    pub fn request_url(&self) -> (r: String)
        ensures
            r@ == request_url_spec(self.args.num),
    {
        let mut s = String::from_str(crate::BASE_URL);
        match self.args.num {
            Some(n) => {
                s.append("/");
                let d = render::fmt_usize(n);
                s.append(d.as_str());
                s.append("/info.0.json");
            },
            None => {
                s.append("/info.0.json");
            },
        }
        s
    }

    /// Turns the metadata response body into the domain record: a strict
    /// decode followed by the pure projection. Succeeds exactly when the
    /// body decodes; every decode failure is a parse failure.
    pub fn comic_from_body(&self, body: &str) -> (r: Result<Comic, XkcdError>)
        ensures
            r is Ok <==> response_decodes(body@),
            r matches Ok(c) ==> comic_matches(body@, c),
            r matches Err(e) ==> e == XkcdError::ParseError,
    {
        match ComicResponse::from_json(body) {
            Ok(resp) => Ok(Comic::from_response(resp)),
            Err(e) => Err(e),
        }
    }
}

/// Whether the domain record is the projection of the like-named values of
/// the document: title and number carried over, the date composed from the
/// day, month and year members, the description from the alt member, the
/// image URL from the img member.
pub open spec fn comic_matches(doc: Seq<char>, c: Comic) -> bool {
    outside::json_str_field(doc, "title"@) == Some(c.title@) && outside::json_u64_field(
        doc,
        "num"@,
    ) == Some(c.num as u64) && (match (
        outside::json_str_field(doc, "day"@),
        outside::json_str_field(doc, "month"@),
        outside::json_str_field(doc, "year"@),
    ) {
        (Some(day), Some(month), Some(year)) => c.date@ == date_of(day, month, year),
        _ => false,
    }) && outside::json_str_field(doc, "alt"@) == Some(c.desc@) && outside::json_str_field(
        doc,
        "img"@,
    ) == Some(c.img_url@)
}

} // verus!
