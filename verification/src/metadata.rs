//! The metadata header of a document: a block between two `---` fences that
//! holds YAML, read into a layout and a few optional fields.

use crate::clock::{now_utc, parse_rfc3339, rfc3339_instant, Timestamp};
use crate::layout::{layout_named, Layout};
use crate::text::{
    chars_of, chained, copy_range, find_from, first_occurrence, string_of, text_of_utf8,
};
use crate::yaml::{no_entries, parse_yaml, yaml_document, yaml_null, yaml_str, yaml_strings};
use vstd::prelude::*;
use vstd::utf8::{decode_utf8, valid_utf8};

verus! {

/// Optional metadata segment of a document.
pub struct MarkdownMetaData {
    pub layout: Layout,
    pub title: Option<String>,
    pub description: Option<String>,
    pub source: Option<String>,
    pub published: Timestamp,
}

/// The mathematical value of a `MarkdownMetaData`.
pub struct MetaDataView {
    pub layout: Layout,
    pub title: Option<Seq<char>>,
    pub description: Option<Seq<char>>,
    pub source: Option<Seq<char>>,
    pub published: Timestamp,
}

/// The characters of an optional text.
pub open spec fn text_view(text: Option<String>) -> Option<Seq<char>> {
    match text {
        Some(s) => Some(s@),
        None => None,
    }
}

impl View for MarkdownMetaData {
    type V = MetaDataView;

    open spec fn view(&self) -> MetaDataView {
        MetaDataView {
            layout: self.layout,
            title: text_view(self.title),
            description: text_view(self.description),
            source: text_view(self.source),
            published: self.published,
        }
    }
}

/// The value of an optional `MarkdownMetaData`.
pub open spec fn metadata_view(metadata: Option<MarkdownMetaData>) -> Option<MetaDataView> {
    match metadata {
        Some(m) => Some(m@),
        None => None,
    }
}

/// The entry of `fields` under `key`, if there is one.
pub open spec fn field(fields: Map<Seq<char>, Seq<char>>, key: Seq<char>) -> Option<Seq<char>> {
    if fields.contains_key(key) {
        Some(fields[key])
    } else {
        None
    }
}

/// The instant that the `published-on` entry denotes, if the entry is there
/// and is an RFC 3339 date and time.
pub open spec fn published_on(fields: Map<Seq<char>, Seq<char>>) -> Option<Timestamp> {
    match field(fields, "published-on"@) {
        Some(text) => match rfc3339_instant(text) {
            Some((secs, nanos)) => Some(Timestamp { secs, nanos }),
            None => None,
        },
        None => None,
    }
}

/// The metadata that a header's entries amount to. Without a `layout` entry
/// there is none. The publication instant is the one the `published-on` entry
/// denotes, and `fallback` where that entry is absent or unreadable.
pub open spec fn metadata_of(fields: Map<Seq<char>, Seq<char>>, fallback: Timestamp) -> Option<
    MetaDataView,
> {
    match field(fields, "layout"@) {
        None => None,
        Some(name) => Some(
            MetaDataView {
                layout: layout_named(name),
                title: field(fields, "title"@),
                description: field(fields, "description"@),
                source: None,
                published: match published_on(fields) {
                    Some(at) => at,
                    None => fallback,
                },
            },
        ),
    }
}

/// The fence that opens and closes a metadata header.
pub open spec fn fence() -> Seq<char> {
    seq!['-', '-', '-']
}

/// Where the header's two fences start: the first fence of the text, and the
/// first fence that starts after it has ended. `None` where the text has no
/// two such fences.
pub open spec fn header_bounds(text: Seq<char>) -> Option<(int, int)> {
    match first_occurrence(text, fence(), 0) {
        None => None,
        Some(open) => match first_occurrence(text, fence(), open + 3) {
            None => None,
            Some(close) => Some((open, close)),
        },
    }
}

/// What stands between the header's fences.
pub open spec fn header_text(text: Seq<char>) -> Option<Seq<char>> {
    match header_bounds(text) {
        Some((open, close)) => Some(text.subrange(open + 3, close)),
        None => None,
    }
}

/// The text without its header, fences included; the whole text where it has
/// no header.
pub open spec fn body_text(text: Seq<char>) -> Seq<char> {
    match header_bounds(text) {
        Some((open, close)) => text.take(open) + text.skip(close + 3),
        None => text,
    }
}

/// The entries of a header: those of the YAML value it parses to, and none
/// where it does not parse.
pub open spec fn header_fields(header: Seq<char>) -> Map<Seq<char>, Seq<char>> {
    match yaml_document(header) {
        Some(entries) => entries,
        None => no_entries(),
    }
}

/// The metadata of a document's text.
pub open spec fn extracted(text: Seq<char>, fallback: Timestamp) -> Option<MetaDataView> {
    match header_text(text) {
        Some(header) => metadata_of(header_fields(header), fallback),
        None => None,
    }
}

/// The layout that a document's text declares.
pub open spec fn document_layout(text: Seq<char>) -> Option<Layout> {
    match header_text(text) {
        Some(header) => match field(header_fields(header), "layout"@) {
            Some(name) => Some(layout_named(name)),
            None => None,
        },
        None => None,
    }
}

/// The layout that a file's bytes declare: none where the file could not be
/// read, is not text, or has no metadata that names a layout.
pub open spec fn layout_of_bytes(content: Option<Seq<u8>>) -> Option<Layout> {
    match content {
        Some(bytes) => if valid_utf8(bytes) {
            document_layout(decode_utf8(bytes))
        } else {
            None
        },
        None => None,
    }
}

/// The bytes of a file's content.
pub open spec fn content_view(content: Option<Vec<u8>>) -> Option<Seq<u8>> {
    match content {
        Some(bytes) => Some(bytes@),
        None => None,
    }
}

/// The metadata of a file's bytes: none where the file could not be read or
/// is not text.
pub open spec fn file_metadata(content: Option<Seq<u8>>, fallback: Timestamp) -> Option<
    MetaDataView,
> {
    match content {
        Some(bytes) => if valid_utf8(bytes) {
            extracted(decode_utf8(bytes), fallback)
        } else {
            None
        },
        None => None,
    }
}

/// A document whose header names no layout has no metadata, whatever the
/// fallback, and declares no layout.
pub proof fn lemma_no_layout_no_metadata(text: Seq<char>, fallback: Timestamp)
    requires
        match header_text(text) {
            Some(header) => !header_fields(header).contains_key("layout"@),
            None => true,
        },
    ensures
        extracted(text, fallback) is None,
        document_layout(text) is None,
{
}

/// Splits a text into what stands between its header's fences and the text
/// without the header.
pub fn split_header(text: &Vec<char>) -> (out: Option<(Vec<char>, Vec<char>)>)
    ensures
        out is Some <==> header_bounds(text@) is Some,
        out matches Some((header, body)) ==> Some(header@) == header_text(text@) && body@
            == body_text(text@),
{
    let mark: Vec<char> = vec!['-', '-', '-'];
    assert(mark@ =~= fence());
    let open = match find_from(text, &mark, 0) {
        Some(i) => i,
        None => { return None; },
    };
    proof {
        crate::text::lemma_first_occurrence(text@, fence(), 0);
        assert(fence().len() == 3);
        assert(open + 3 <= text.len());
    }
    let close = match find_from(text, &mark, open + 3) {
        Some(j) => j,
        None => { return None; },
    };
    proof {
        crate::text::lemma_first_occurrence(text@, fence(), open + 3);
    }
    let header = copy_range(text, open + 3, close);
    let before = copy_range(text, 0, open);
    let after = copy_range(text, close + 3, text.len());
    let body = chained(&before, &after);
    Some((header, body))
}

impl MarkdownMetaData {
    /// Reads the metadata out of a YAML value, with `fallback` as the
    /// publication instant where the value gives none.
    pub fn from_yaml_at(yaml: &serde_yaml::Value, fallback: Timestamp) -> (out: Option<
        MarkdownMetaData,
    >)
        ensures
            metadata_view(out) == metadata_of(yaml_strings(*yaml), fallback),
    {
        let layout = match yaml_str(yaml, "layout") {
            Some(name) => Layout::from(name.as_str()),
            None => { return None; },
        };
        let title = yaml_str(yaml, "title");
        let description = yaml_str(yaml, "description");
        let published = match Self::published_in(yaml) {
            Some(at) => at,
            None => fallback,
        };
        Some(MarkdownMetaData { layout, title, description, source: None, published })
    }

    /// The publication instant that a YAML value gives.
    pub fn published_in(yaml: &serde_yaml::Value) -> (out: Option<Timestamp>)
        ensures
            out == published_on(yaml_strings(*yaml)),
    {
        match yaml_str(yaml, "published-on") {
            Some(text) => parse_rfc3339(text.as_str()),
            None => None,
        }
    }

    /// Parses the provided YAML value into a `MarkdownMetaData`. Without a
    /// `layout` entry there is none. Where the value gives no readable
    /// publication instant, the present instant stands for it.
    pub fn from_yaml(yaml: serde_yaml::Value) -> (out: Option<MarkdownMetaData>)
        ensures
            out is Some <==> yaml_strings(yaml).contains_key("layout"@),
            exists|fallback: Timestamp|
                metadata_view(out) == #[trigger] metadata_of(yaml_strings(yaml), fallback),
    {
        if yaml_str(&yaml, "layout").is_none() {
            let ghost any = Timestamp { secs: 0, nanos: 0 };
            assert(metadata_of(yaml_strings(yaml), any) is None);
            return None;
        }
        let fallback = match Self::published_in(&yaml) {
            Some(at) => at,
            None => now_utc(),
        };
        Self::from_yaml_at(&yaml, fallback)
    }

    /// Extracts the metadata from a document's text and removes the header
    /// from the text, with `fallback` as the publication instant where the
    /// header gives none. A text without a header is left as it is.
    pub fn extract_at(document: &mut String, fallback: Timestamp) -> (out: Option<
        MarkdownMetaData,
    >)
        ensures
            final(document)@ == body_text(old(document)@),
            metadata_view(out) == extracted(old(document)@, fallback),
    {
        let text = chars_of(document.as_str());
        match split_header(&text) {
            None => None,
            Some((header, body)) => {
                let yaml = Self::header_yaml(&header);
                let out = Self::from_yaml_at(&yaml, fallback);
                *document = string_of(&body);
                out
            },
        }
    }

    /// The YAML value of a header: the null value where the header does not
    /// parse.
    fn header_yaml(header: &Vec<char>) -> (out: serde_yaml::Value)
        ensures
            yaml_strings(out) == header_fields(header@),
    {
        let header_text = string_of(header);
        match parse_yaml(header_text.as_str()) {
            Some(value) => value,
            None => yaml_null(),
        }
    }

    /// Extracts (and removes) the metadata from the document's text. A text
    /// without a header is left as it is and has no metadata; a header without
    /// a `layout` entry is removed and gives no metadata.
    pub fn extract(document: &mut String) -> (out: Option<MarkdownMetaData>)
        ensures
            final(document)@ == body_text(old(document)@),
            out is Some <==> document_layout(old(document)@) is Some,
            exists|fallback: Timestamp|
                metadata_view(out) == #[trigger] extracted(old(document)@, fallback),
    {
        let text = chars_of(document.as_str());
        match split_header(&text) {
            None => {
                let ghost any = Timestamp { secs: 0, nanos: 0 };
                assert(extracted(text@, any) is None);
                None
            },
            Some((header, body)) => {
                let yaml = Self::header_yaml(&header);
                let ghost entries = yaml_strings(yaml);
                let out = Self::from_yaml(yaml);
                proof {
                    let fallback = choose|fallback: Timestamp|
                        metadata_view(out) == #[trigger] metadata_of(entries, fallback);
                    assert(metadata_view(out) == extracted(text@, fallback));
                }
                *document = string_of(&body);
                out
            },
        }
    }

    /// Gets the metadata of a document from the bytes of its file: `content`
    /// is `None` where the file could not be read. There is none where the
    /// file could not be read, is not text, or has no header that names a
    /// layout.
    pub fn from_file(content: Option<Vec<u8>>) -> (out: Option<MarkdownMetaData>)
        ensures
            out is Some <==> layout_of_bytes(content_view(content)) is Some,
            exists|fallback: Timestamp|
                metadata_view(out) == #[trigger] file_metadata(content_view(content), fallback),
    {
        let ghost any = Timestamp { secs: 0, nanos: 0 };
        let bytes = match content {
            Some(bytes) => bytes,
            None => {
                assert(file_metadata(content_view(content), any) is None);
                return None;
            },
        };
        let mut text = match text_of_utf8(bytes) {
            Some(text) => text,
            None => {
                assert(file_metadata(content_view(content), any) is None);
                return None;
            },
        };
        let ghost whole = text@;
        let out = Self::extract(&mut text);
        proof {
            let fallback = choose|fallback: Timestamp|
                metadata_view(out) == #[trigger] extracted(whole, fallback);
            assert(metadata_view(out) == file_metadata(content_view(content), fallback));
        }
        out
    }

    /// The layout that a document's text declares, if it declares one.
    pub fn layout_of(document: &str) -> (out: Option<Layout>)
        ensures
            out == document_layout(document@),
    {
        let text = chars_of(document);
        match split_header(&text) {
            None => None,
            Some((header, _)) => {
                let yaml = Self::header_yaml(&header);
                match yaml_str(&yaml, "layout") {
                    Some(name) => Some(Layout::from(name.as_str())),
                    None => None,
                }
            },
        }
    }
}

} // verus!
