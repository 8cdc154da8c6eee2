//! Rendering one document: from the bytes of its source and of its template
//! to the page that is written out.

use crate::clock::Timestamp;
use crate::layout::Layout;
use crate::metadata::{body_text, extracted, metadata_view, MarkdownMetaData, MetaDataView};
use crate::orchestrator::{document_extension, page_extension};
use crate::paths::{extension, has_extension, replace_extension, with_extension};
use crate::metadata::content_view;
use crate::template::{load_template, merge_template, merged, RenderError};
use crate::text::{chars_of, string_of, text_of_utf8};
use vstd::prelude::*;
use vstd::utf8::{decode_utf8, valid_utf8};

verus! {

/// The HTML that a Markdown text renders to, with every extension of the
/// renderer switched on.
pub uninterp spec fn html_of_markdown(text: Seq<char>) -> Seq<char>;

/// Renders Markdown to HTML.
///
/// Trusted: this is `pulldown_cmark::html::push_html` into an empty string,
/// over `pulldown_cmark::Parser::new_ext` of the text with
/// `pulldown_cmark::Options::all()`. The result depends on the text alone; the
/// contract names it `html_of_markdown`.
#[verifier::external_body]
pub(crate) fn markdown_html(text: &str) -> (out: String)
    ensures
        out@ == html_of_markdown(text@),
{
    let parser = pulldown_cmark::Parser::new_ext(text, pulldown_cmark::Options::all());
    let mut out = String::new();
    pulldown_cmark::html::push_html(&mut out, parser);
    out
}

/// The templates as they were read, one for each layout: `None` where the
/// layout's template could not be read.
pub struct TemplateSet {
    pub article: Option<Vec<u8>>,
    pub index: Option<Vec<u8>>,
    pub undefined: Option<Vec<u8>>,
}

impl TemplateSet {
    /// The bytes of the template of a layout.
    pub open spec fn template_of(self, layout: Layout) -> Option<Seq<u8>> {
        match layout {
            Layout::Article => content_view(self.article),
            Layout::Index => content_view(self.index),
            Layout::Undefined => content_view(self.undefined),
        }
    }

    /// The template of a layout.
    pub fn get(&self, layout: &Layout) -> (out: &Option<Vec<u8>>)
        ensures
            content_view(*out) == self.template_of(*layout),
    {
        match layout {
            Layout::Article => &self.article,
            Layout::Index => &self.index,
            Layout::Undefined => &self.undefined,
        }
    }
}

/// A rendered document: the page, the path it is to be written to, and the
/// path of the document's artifact.
pub struct Rendered {
    pub target: String,
    pub document: String,
    pub artifact: String,
}

/// The mathematical value of a `Rendered`.
pub struct RenderedView {
    pub target: Seq<char>,
    pub document: Seq<char>,
    pub artifact: Seq<char>,
}

impl View for Rendered {
    type V = RenderedView;

    open spec fn view(&self) -> RenderedView {
        RenderedView { target: self.target@, document: self.document@, artifact: self.artifact@ }
    }
}

/// The value of the outcome of a rendering.
pub open spec fn outcome_view(outcome: Result<Rendered, RenderError>) -> Result<
    RenderedView,
    RenderError,
> {
    match outcome {
        Ok(rendered) => Ok(rendered@),
        Err(e) => Err(e),
    }
}

/// The characters of an optional path.
pub open spec fn destination_view(destination: Option<&str>) -> Option<Seq<char>> {
    match destination {
        Some(d) => Some(d@),
        None => None,
    }
}

/// The text of a template: what its bytes encode, and the empty text where
/// they are no text.
pub open spec fn template_text(bytes: Seq<u8>) -> Seq<char> {
    if valid_utf8(bytes) {
        decode_utf8(bytes)
    } else {
        Seq::empty()
    }
}

/// The page of a document whose metadata was read: its body rendered and set
/// into the template of its layout. The page goes to `destination`, or to the
/// source where none is given, with the page extension; the artifact is the
/// source with the page extension.
pub open spec fn page_of(
    source: Seq<char>,
    destination: Option<Seq<char>>,
    metadata: MetaDataView,
    body: Seq<char>,
    templates: TemplateSet,
    sep: char,
) -> Result<RenderedView, RenderError> {
    match templates.template_of(metadata.layout) {
        None => Err(RenderError::TemplateNotFound),
        Some(bytes) => Ok(
            RenderedView {
                target: with_extension(
                    match destination {
                        Some(d) => d,
                        None => source,
                    },
                    sep,
                    page_extension(),
                ),
                document: merged(template_text(bytes), metadata, html_of_markdown(body)),
                artifact: with_extension(source, sep, page_extension()),
            },
        ),
    }
}

/// What rendering a document comes to. The source must have the document
/// extension, must have been read, must be text and must have metadata that
/// names a layout; the template of that layout must have been read. Each
/// failure is told apart, the earlier one first.
pub open spec fn rendered(
    source: Seq<char>,
    destination: Option<Seq<char>>,
    content: Option<Seq<u8>>,
    templates: TemplateSet,
    sep: char,
    fallback: Timestamp,
) -> Result<RenderedView, RenderError> {
    if extension(source, sep) != Some(document_extension()) {
        Err(RenderError::NotADocument)
    } else {
        match content {
            None => Err(RenderError::UnreadableSource),
            Some(bytes) => if !valid_utf8(bytes) {
                Err(RenderError::InvalidText)
            } else {
                match extracted(decode_utf8(bytes), fallback) {
                    None => Err(RenderError::MissingMetadata),
                    Some(metadata) => page_of(
                        source,
                        destination,
                        metadata,
                        body_text(decode_utf8(bytes)),
                        templates,
                        sep,
                    ),
                }
            },
        }
    }
}

/// The path of the artifact of a document: the document's path with the page
/// extension in place of its own.
pub fn artifact_path(source: &str, sep: char) -> (out: String)
    ensures
        out@ == with_extension(source@, sep, page_extension()),
{
    let page: Vec<char> = vec!['h', 't', 'm', 'l'];
    assert(page@ =~= page_extension());
    string_of(&replace_extension(&chars_of(source), sep, &page))
}

/// The text of a document's source, where the source is a document that was
/// read and is text.
fn source_text(source: &str, content: Option<Vec<u8>>, sep: char) -> (out: Result<
    String,
    RenderError,
>)
    ensures
        match out {
            Ok(text) => extension(source@, sep) == Some(document_extension()) && content_view(
                content,
            ) is Some && valid_utf8(content_view(content)->0) && text@ == decode_utf8(
                content_view(content)->0,
            ),
            Err(e) => if extension(source@, sep) != Some(document_extension()) {
                e == RenderError::NotADocument
            } else if content is None {
                e == RenderError::UnreadableSource
            } else {
                e == RenderError::InvalidText && !valid_utf8(content_view(content)->0)
            },
        },
{
    let document: Vec<char> = vec!['m', 'd'];
    assert(document@ =~= document_extension());
    if !has_extension(&chars_of(source), sep, &document) {
        return Err(RenderError::NotADocument);
    }
    let bytes = match content {
        Some(bytes) => bytes,
        None => { return Err(RenderError::UnreadableSource); },
    };
    match text_of_utf8(bytes) {
        Some(text) => Ok(text),
        None => Err(RenderError::InvalidText),
    }
}

/// Sets the rendered body of a document into the template of its layout.
fn page(
    source: &str,
    destination: Option<&str>,
    metadata: &MarkdownMetaData,
    body: &str,
    templates: &TemplateSet,
    sep: char,
) -> (out: Result<Rendered, RenderError>)
    ensures
        outcome_view(out) == page_of(
            source@,
            destination_view(destination),
            metadata@,
            body@,
            *templates,
            sep,
        ),
{
    let html = markdown_html(body);
    let mut template: Vec<u8> = Vec::new();
    match load_template(templates.get(&metadata.layout).clone(), &mut template) {
        Ok(_) => {},
        Err(e) => { return Err(e); },
    }
    let ghost bytes = template@;
    proof {
        assert(Seq::<u8>::empty() + templates.template_of(metadata.layout)->0 =~= bytes);
    }
    let content = match text_of_utf8(template) {
        Some(text) => text,
        None => String::new(),
    };
    let target = match destination {
        Some(d) => artifact_path(d, sep),
        None => artifact_path(source, sep),
    };
    let document = merge_template(content.as_str(), metadata, html.as_str());
    Ok(Rendered { target, document, artifact: artifact_path(source, sep) })
}

/// Converts a document to its page, with `fallback` as the publication
/// instant where the document gives none.
pub fn render_at(
    source: &str,
    destination: Option<&str>,
    content: Option<Vec<u8>>,
    templates: &TemplateSet,
    sep: char,
    fallback: Timestamp,
) -> (out: Result<Rendered, RenderError>)
    ensures
        outcome_view(out) == rendered(
            source@,
            destination_view(destination),
            content_view(content),
            *templates,
            sep,
            fallback,
        ),
{
    let mut text = match source_text(source, content, sep) {
        Ok(text) => text,
        Err(e) => { return Err(e); },
    };
    match MarkdownMetaData::extract_at(&mut text, fallback) {
        Some(metadata) => page(source, destination, &metadata, text.as_str(), templates, sep),
        None => Err(RenderError::MissingMetadata),
    }
}

/// Converts the source document (which needs to have the `md` extension) to
/// HTML using the template of the layout that its metadata names. If no
/// destination is given, the page goes to the path of the source with the
/// `html` extension. Where the document gives no publication instant, the
/// present instant stands for it.
pub fn markdown_to_html(
    source: &str,
    destination: Option<&str>,
    content: Option<Vec<u8>>,
    templates: &TemplateSet,
    sep: char,
) -> (out: Result<Rendered, RenderError>)
    ensures
        exists|fallback: Timestamp|
            outcome_view(out) == #[trigger] rendered(
                source@,
                destination_view(destination),
                content_view(content),
                *templates,
                sep,
                fallback,
            ),
{
    let ghost target = destination_view(destination);
    let ghost any = Timestamp { secs: 0, nanos: 0 };
    let mut text = match source_text(source, content, sep) {
        Ok(text) => text,
        Err(e) => {
            proof {
                assert(outcome_view(Err::<Rendered, RenderError>(e)) == rendered(
                    source@,
                    target,
                    content_view(content),
                    *templates,
                    sep,
                    any,
                ));
            }
            return Err(e);
        },
    };
    let ghost whole = text@;
    let found = MarkdownMetaData::extract(&mut text);
    let ghost fallback = choose|fallback: Timestamp|
        metadata_view(found) == #[trigger] extracted(whole, fallback);
    let out = match found {
        Some(metadata) => page(source, destination, &metadata, text.as_str(), templates, sep),
        None => Err(RenderError::MissingMetadata),
    };
    proof {
        assert(outcome_view(out) == rendered(
            source@,
            target,
            content_view(content),
            *templates,
            sep,
            fallback,
        ));
    }
    out
}

} // verus!
