//! Templates: how a rendered document is set into one, which documents use
//! one, and when each was last changed.

use crate::clock::{utc_display, utc_text, Timestamp};
use crate::layout::{layout_named, Layout};
use crate::metadata::{content_view, layout_of_bytes, MarkdownMetaData, MetaDataView};
use crate::paths::{file_stem, file_stem_of, join, joined, replace_extension, with_extension};
use crate::text::{chars_of, replace_str, replaced, string_of, text_of_utf8};
use crate::tree::texts;
use vstd::prelude::*;

verus! {

/// Why a document could not be rendered.
#[derive(Debug, Clone, Copy, PartialEq, Eq, Structural)]
pub enum RenderError {
    /// The source is no document: its extension is not the document extension.
    NotADocument,
    /// The source could not be read.
    UnreadableSource,
    /// The source is not text.
    InvalidText,
    /// The document has no metadata, or its metadata names no layout.
    MissingMetadata,
    /// The template of the document's layout could not be read.
    TemplateNotFound,
}

/// An optional text, with nothing read as the empty text.
pub open spec fn or_empty(text: Option<Seq<char>>) -> Seq<char> {
    match text {
        Some(t) => t,
        None => Seq::empty(),
    }
}

/// The publication instant as it is written into a document: the instant in
/// UTC, and nothing for an instant outside the calendar's range.
pub open spec fn published_text(at: Timestamp) -> Seq<char> {
    or_empty(utc_display(at.secs, at.nanos))
}

/// A template with its placeholders filled in: the content first, then title,
/// description, publication instant and source, each wherever it occurs in
/// what the step before has left.
pub open spec fn merged(template: Seq<char>, metadata: MetaDataView, html: Seq<char>) -> Seq<char> {
    let with_content = replaced(template, "{{content}}"@, html);
    let with_title = replaced(with_content, "{{title}}"@, or_empty(metadata.title));
    let with_description = replaced(
        with_title,
        "{{description}}"@,
        or_empty(metadata.description),
    );
    let with_published = replaced(
        with_description,
        "{{published-on}}"@,
        published_text(metadata.published),
    );
    replaced(with_published, "{{source}}"@, or_empty(metadata.source))
}

/// An optional text as a text.
fn text_or_empty(text: &Option<String>) -> (out: String)
    ensures
        out@ == or_empty(crate::metadata::text_view(*text)),
{
    match text {
        Some(t) => t.clone(),
        None => String::new(),
    }
}

/// Merges a template with the provided metadata and rendered content.
pub fn merge_template(template: &str, metadata: &MarkdownMetaData, html_content: &str) -> (out:
    String)
    ensures
        out@ == merged(template@, metadata@, html_content@),
{
    let title = text_or_empty(&metadata.title);
    let description = text_or_empty(&metadata.description);
    let source = text_or_empty(&metadata.source);
    let published = text_or_empty(&utc_text(metadata.published));
    let with_content = replace_str(template, "{{content}}", html_content);
    let with_title = replace_str(with_content.as_str(), "{{title}}", title.as_str());
    let with_description = replace_str(
        with_title.as_str(),
        "{{description}}",
        description.as_str(),
    );
    let with_published = replace_str(
        with_description.as_str(),
        "{{published-on}}",
        published.as_str(),
    );
    replace_str(with_published.as_str(), "{{source}}", source.as_str())
}

/// The extension of a template file.
pub open spec fn template_extension() -> Seq<char> {
    seq!['h', 't', 'm', 'l']
}

/// The path of the template of the given name below `templates_root`.
pub open spec fn template_path_of(name: Seq<char>, templates_root: Seq<char>, sep: char) -> Seq<
    char,
> {
    with_extension(joined(templates_root, name, sep), sep, template_extension())
}

/// The path of the template of the given name (without file extension) below
/// `templates_root`.
pub fn template_path(name: &str, templates_root: &str, sep: char) -> (out: String)
    ensures
        out@ == template_path_of(name@, templates_root@, sep),
{
    let root = chars_of(templates_root);
    let file = chars_of(name);
    let ext: Vec<char> = vec!['h', 't', 'm', 'l'];
    assert(ext@ =~= template_extension());
    let path = join(&root, &file, sep);
    string_of(&replace_extension(&path, sep, &ext))
}

/// Loads a template that was read from its file: adds its bytes to `buffer`
/// and returns how many they are. `found` is `None` where the file could not
/// be read; the buffer then stays as it is.
pub fn load_template(found: Option<Vec<u8>>, buffer: &mut Vec<u8>) -> (out: Result<
    usize,
    RenderError,
>)
    ensures
        match found {
            Some(bytes) => out == Ok::<usize, RenderError>(bytes.len()) && final(buffer)@ == old(
                buffer,
            )@ + bytes@,
            None => out == Err::<usize, RenderError>(RenderError::TemplateNotFound)
                && final(buffer)@ == old(buffer)@,
        },
{
    match found {
        Some(bytes) => {
            let mut k: usize = 0;
            while k < bytes.len()
                invariant
                    k <= bytes.len(),
                    buffer@ == old(buffer)@ + bytes@.take(k as int),
                decreases bytes.len() - k,
            {
                buffer.push(bytes[k]);
                proof {
                    assert(bytes@.take(k + 1) == bytes@.take(k as int).push(bytes@[k as int]));
                }
                k += 1;
            }
            proof {
                assert(bytes@.take(bytes.len() as int) == bytes@);
            }
            Ok(bytes.len())
        },
        None => Err(RenderError::TemplateNotFound),
    }
}

/// A file of the source tree as it was read: `content` is `None` where the
/// file could not be read.
pub struct SourceFile {
    pub path: String,
    pub content: Option<Vec<u8>>,
}

/// Whether a file is a document that uses `layout`.
pub open spec fn uses_layout(file: SourceFile, layout: Layout) -> bool {
    layout_of_bytes(content_view(file.content)) == Some(layout)
}

/// The paths of the files from index `from` on that use `layout`, in order.
pub open spec fn usage_from(files: Seq<SourceFile>, from: int, layout: Layout) -> Seq<Seq<char>>
    decreases files.len() - from,
{
    if from < 0 || from >= files.len() {
        seq![]
    } else if uses_layout(files[from], layout) {
        seq![files[from].path@] + usage_from(files, from + 1, layout)
    } else {
        usage_from(files, from + 1, layout)
    }
}

/// The indices, from `from` on, of the files that use `layout`, in order.
pub open spec fn users_from(files: Seq<SourceFile>, from: int, layout: Layout) -> Seq<int>
    decreases files.len() - from,
{
    if from < 0 || from >= files.len() {
        seq![]
    } else if uses_layout(files[from], layout) {
        seq![from] + users_from(files, from + 1, layout)
    } else {
        users_from(files, from + 1, layout)
    }
}

/// The usages of a layout are the paths of the files that use it, one for
/// each such file: the indices of those files rise strictly, each of them is
/// the index of a file that uses the layout, no such file is left out, and
/// the usages are the paths at those indices.
pub proof fn lemma_usage_is_exact(files: Seq<SourceFile>, from: int, layout: Layout)
    requires
        0 <= from,
    ensures
        usage_from(files, from, layout).len() == users_from(files, from, layout).len(),
        forall|k: int|
            0 <= k < users_from(files, from, layout).len() ==> {
                let i = #[trigger] users_from(files, from, layout)[k];
                &&& from <= i < files.len()
                &&& uses_layout(files[i], layout)
                &&& usage_from(files, from, layout)[k] == files[i].path@
            },
        forall|k: int, m: int|
            0 <= k < m < users_from(files, from, layout).len() ==> users_from(
                files,
                from,
                layout,
            )[k] < users_from(files, from, layout)[m],
        forall|i: int|
            from <= i < files.len() && uses_layout(#[trigger] files[i], layout) ==> users_from(
                files,
                from,
                layout,
            ).contains(i),
    decreases files.len() - from,
{
    if from >= files.len() {
    } else {
        lemma_usage_is_exact(files, from + 1, layout);
        let rest = users_from(files, from + 1, layout);
        let all = users_from(files, from, layout);
        if uses_layout(files[from], layout) {
            assert(all == seq![from] + rest);
            assert(all[0] == from);
            assert forall|k: int| 1 <= k < all.len() implies all[k] == rest[k - 1] by {}
            assert forall|i: int|
                from <= i < files.len() && uses_layout(#[trigger] files[i], layout) implies all.contains(
                i,
            ) by {
                if i == from {
                    assert(all[0] == i);
                } else {
                    assert(rest.contains(i));
                    let k = choose|k: int| 0 <= k < rest.len() && rest[k] == i;
                    assert(all[k + 1] == i);
                }
            }
        } else {
            assert(all == rest);
        }
    }
}

/// A file that declares no layout is no usage of any layout: it is not among
/// the files whose paths `find_usage` reports, whichever layout is asked for.
pub proof fn lemma_without_layout_no_usage(files: Seq<SourceFile>, i: int, layout: Layout)
    requires
        0 <= i < files.len(),
        layout_of_bytes(content_view(files[i].content)) is None,
    ensures
        !uses_layout(files[i], layout),
        !users_from(files, 0, layout).contains(i),
{
    lemma_usage_is_exact(files, 0, layout);
    if users_from(files, 0, layout).contains(i) {
        let k = choose|k: int|
            0 <= k < users_from(files, 0, layout).len() && users_from(files, 0, layout)[k] == i;
        assert(uses_layout(files[users_from(files, 0, layout)[k]], layout));
    }
}

/// The layout that a file declares.
pub fn declared_layout(file: &SourceFile) -> (out: Option<Layout>)
    ensures
        out == layout_of_bytes(content_view(file.content)),
{
    match &file.content {
        Some(bytes) => match text_of_utf8(bytes.clone()) {
            Some(text) => MarkdownMetaData::layout_of(text.as_str()),
            None => None,
        },
        None => None,
    }
}

/// Given a layout, finds all its usages among the files of the source tree:
/// adds to `matches` the path of each file that is a document of that
/// layout, in the order of the files.
pub fn find_usage(files: &Vec<SourceFile>, layout: &Layout, matches: &mut Vec<String>)
    ensures
        texts(final(matches)@) == texts(old(matches)@) + usage_from(files@, 0, *layout),
{
    let mut i: usize = 0;
    proof {
        assert(texts(matches@) =~= texts(old(matches)@) + Seq::<Seq<char>>::empty());
    }
    while i < files.len()
        invariant
            i <= files.len(),
            texts(matches@) + usage_from(files@, i as int, *layout) == texts(old(matches)@)
                + usage_from(files@, 0, *layout),
        decreases files.len() - i,
    {
        let ghost before = texts(matches@);
        let ghost rest = usage_from(files@, i + 1, *layout);
        let declared = declared_layout(&files[i]);
        if declared == Some(*layout) {
            matches.push(files[i].path.clone());
            proof {
                assert(texts(matches@) =~= before + seq![files@[i as int].path@]);
                assert((before + seq![files@[i as int].path@]) + rest =~= before + (
                seq![files@[i as int].path@] + rest));
            }
        }
        i += 1;
    }
    proof {
        assert(texts(matches@) + Seq::<Seq<char>>::empty() =~= texts(matches@));
    }
}

/// When each layout's template was last changed, as found at one moment.
pub struct TemplateTimestampIndex {
    article: Option<u128>,
    index: Option<u128>,
    undefined: Option<u128>,
}

impl View for TemplateTimestampIndex {
    type V = Map<Layout, u128>;

    closed spec fn view(&self) -> Map<Layout, u128> {
        Map::new(
            |layout: Layout| self.slot(layout) is Some,
            |layout: Layout| self.slot(layout)->0,
        )
    }
}

impl TemplateTimestampIndex {
    /// What the index holds for a layout.
    closed spec fn slot(self, layout: Layout) -> Option<u128> {
        match layout {
            Layout::Article => self.article,
            Layout::Index => self.index,
            Layout::Undefined => self.undefined,
        }
    }

    /// The index that knows no template.
    pub fn new() -> (out: TemplateTimestampIndex)
        ensures
            out@ == Map::<Layout, u128>::empty(),
    {
        let out = TemplateTimestampIndex { article: None, index: None, undefined: None };
        proof {
            assert(out@ =~= Map::<Layout, u128>::empty());
        }
        out
    }

    /// When the template of `layout` was last changed, if the index knows it.
    pub fn get(&self, layout: &Layout) -> (out: Option<u128>)
        ensures
            out is Some <==> self@.contains_key(*layout),
            out matches Some(at) ==> at == self@[*layout],
    {
        match layout {
            Layout::Article => self.article,
            Layout::Index => self.index,
            Layout::Undefined => self.undefined,
        }
    }

    /// Records when the template of `layout` was last changed, in place of
    /// what the index held for that layout.
    pub fn insert(&mut self, layout: Layout, modified: u128)
        ensures
            final(self)@ == old(self)@.insert(layout, modified),
    {
        match layout {
            Layout::Article => { self.article = Some(modified); },
            Layout::Index => { self.index = Some(modified); },
            Layout::Undefined => { self.undefined = Some(modified); },
        }
        proof {
            assert(self@ =~= old(self)@.insert(layout, modified));
        }
    }
}

/// An entry of the templates directory: its file name and its time of last
/// modification.
pub struct TemplateFile {
    pub name: String,
    pub modified: u128,
}

/// The index that the first `upto` entries of the templates directory give:
/// each entry stands for the layout that its file stem names, and of two
/// entries for one layout the later one counts.
pub open spec fn index_of(templates: Seq<TemplateFile>, upto: int, sep: char) -> Map<Layout, u128>
    decreases upto,
{
    if upto <= 0 || upto > templates.len() {
        Map::empty()
    } else {
        index_of(templates, upto - 1, sep).insert(
            layout_named(file_stem(templates[upto - 1].name@, sep)),
            templates[upto - 1].modified,
        )
    }
}

/// The layout that a template file stands for.
pub fn template_layout(path: &str, sep: char) -> (out: Layout)
    ensures
        out == layout_named(file_stem(path@, sep)),
{
    let stem = file_stem_of(&chars_of(path), sep);
    let name = string_of(&stem);
    Layout::from(name.as_str())
}

/// Reads the entries of the templates directory into the index of their
/// last changes.
pub fn last_changed(templates: &Vec<TemplateFile>, sep: char) -> (out: TemplateTimestampIndex)
    ensures
        out@ == index_of(templates@, templates@.len() as int, sep),
{
    let mut out = TemplateTimestampIndex::new();
    let mut i: usize = 0;
    while i < templates.len()
        invariant
            i <= templates.len(),
            out@ == index_of(templates@, i as int, sep),
        decreases templates.len() - i,
    {
        let layout = template_layout(templates[i].name.as_str(), sep);
        out.insert(layout, templates[i].modified);
        i += 1;
    }
    out
}

} // verus!
