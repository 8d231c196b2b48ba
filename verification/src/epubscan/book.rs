//! Books and their sections: what an EPUB archive yields, spine item by spine item.
use vstd::prelude::*;
use vstd::string::StrSliceExecFns;
use crate::epubscan::archive::{
    detect_language, detected_language, read_entry_spec, read_zip_entry,
    EpubError, EpubErrorView,
};
use crate::epubscan::package::{
    find_opf_path, container_spec, manifest_find, manifest_index, manifest_view, ncx_spec, opf_spec,
    pair_find, pair_get, pair_index, parse_ncx, parse_opf, string_pairs_view, strings_view, OpfModel,
    lemma_manifest_index_valid, lemma_pair_index_valid,
};
use crate::epubscan::paths::{resolve, resolve_spec};
use crate::epubscan::xhtml::{byte_spans, int_pairs, render_events, render_events_exec, spans_inside};
use crate::epubscan::xml::{events_view, xml_events, xml_tokens};
use crate::formatter::{opt_str_view, opt_string_view};
use crate::laws::{joined, law_rendered_paragraphs_tile_text, law_tiling_paragraphs_join_to_text, span_pieces, spans_tile};
use crate::text::{chars_of, contains, find_from_exec};

verus! {

/// The mathematical value of a [`Section`]: its title, its text, its language and
/// the character spans of its paragraphs in the text.
pub ghost struct SectionView {
    pub title: Option<Seq<char>>,
    pub text: Seq<char>,
    pub language: Option<Seq<char>>,
    pub spans: Seq<(int, int)>,
}

/// One spine item of a book, as plain text.
pub struct Section {
    title: Option<String>,
    text: String,
    language: Option<String>,
    segment_indices: Vec<(usize, usize)>,
    spans: Vec<(usize, usize)>,
}

impl View for Section {
    type V = SectionView;

    closed spec fn view(&self) -> SectionView {
        SectionView {
            title: opt_string_view(self.title),
            text: self.text@,
            language: opt_string_view(self.language),
            spans: int_pairs(self.spans@),
        }
    }
}

impl Section {
    /// The paragraph spans tile the text and lie inside it, and the byte offsets
    /// are their UTF-8 positions.
    #[verifier::type_invariant]
    closed spec fn well_formed(self) -> bool {
        &&& spans_tile(self.text@, int_pairs(self.spans@))
        &&& spans_inside(self.text@, int_pairs(self.spans@))
        &&& int_pairs(self.segment_indices@) == byte_spans(self.text@, int_pairs(self.spans@))
    }

    /// The chapter title from the NCX table of contents, if present.
    pub fn title(&self) -> (r: Option<&str>)
        ensures
            opt_str_view(r) == self@.title,
    {
        match &self.title {
            Some(t) => Some(t.as_str()),
            None => None,
        }
    }

    /// The full text of the section.
    pub fn text(&self) -> (r: &str)
        ensures
            r@ == self@.text,
    {
        self.text.as_str()
    }

    /// The paragraphs, each a slice of [`text`](Self::text) (with its trailing
    /// blank line); their spans tile the text, so the paragraphs joined in order
    /// give the text back.
    pub fn pars(&self) -> (r: Vec<&str>)
        ensures
            spans_tile(self@.text, self@.spans),
            joined(r@.map_values(|p: &str| p@)) == self@.text,
            r@.len() == self@.spans.len(),
            forall|k: int| 0 <= k < r@.len() ==> #[trigger] r@[k]@ == self@.text.subrange(
                self@.spans[k].0,
                self@.spans[k].1,
            ),
    {
        proof {
            use_type_invariant(self);
        }
        let mut r: Vec<&str> = Vec::new();
        let mut k: usize = 0;
        while k < self.spans.len()
            invariant
                k <= self.spans@.len(),
                r@.len() == k,
                spans_inside(self.text@, int_pairs(self.spans@)),
                forall|m: int| 0 <= m < k ==> #[trigger] r@[m]@ == self.text@.subrange(
                    self.spans@[m].0 as int,
                    self.spans@[m].1 as int,
                ),
            decreases self.spans.len() - k,
        {
            let (a, b) = self.spans[k];
            assert(int_pairs(self.spans@)[k as int] == (a as int, b as int));
            r.push(self.text.as_str().substring_char(a, b));
            k = k + 1;
        }
        proof {
            law_tiling_paragraphs_join_to_text(self.text@, int_pairs(self.spans@));
            assert(r@.map_values(|p: &str| p@) =~= span_pieces(self.text@, int_pairs(self.spans@)));
        }
        r
    }

    /// The language from the OPF metadata, or else the one detected in the text.
    pub fn language(&self) -> (r: Option<&str>)
        ensures
            opt_str_view(r) == self@.language,
    {
        match &self.language {
            Some(t) => Some(t.as_str()),
            None => None,
        }
    }
}

/// A book: its sections in reading order.
pub struct EpubScan {
    sections: Vec<Section>,
}

/// The views of a list of sections.
pub open spec fn sections_view(v: Seq<Section>) -> Seq<SectionView> {
    v.map_values(|s: Section| s@)
}

impl View for EpubScan {
    type V = Seq<SectionView>;

    closed spec fn view(&self) -> Seq<SectionView> {
        sections_view(self.sections@)
    }
}

/// The table of contents of the book: the NCX named by the OPF, if it is in the
/// manifest and can be read, else nothing.
pub open spec fn toc_spec(archive: Seq<u8>, opf: OpfModel) -> Seq<(Seq<char>, Seq<char>)> {
    match opf.ncx_id {
        None => Seq::empty(),
        Some(id) => match manifest_index(opf.manifest, id) {
            None => Seq::empty(),
            Some(i) => match ncx_spec(archive, resolve_spec(opf.opf_dir, opf.manifest[i].1)) {
                Ok(t) => t,
                Err(_) => Seq::empty(),
            },
        },
    }
}

/// Media types of content documents.
pub open spec fn is_html_type(media_type: Seq<char>) -> bool {
    contains(media_type, "xhtml"@) || contains(media_type, "html"@)
}

/// The section a spine item gives: none when it is not in the manifest, not HTML,
/// unreadable, or renders to no text.
pub open spec fn section_for(
    archive: Seq<u8>,
    opf: OpfModel,
    toc: Seq<(Seq<char>, Seq<char>)>,
    idref: Seq<char>,
) -> Option<SectionView> {
    match manifest_index(opf.manifest, idref) {
        None => None,
        Some(i) => {
            let item = opf.manifest[i];
            if !is_html_type(item.2) {
                None
            } else {
                let path = resolve_spec(opf.opf_dir, item.1);
                match read_entry_spec(archive, path) {
                    Err(_) => None,
                    Ok(x) => {
                        let r = render_events(xml_tokens(x, false));
                        if r.text.len() == 0 {
                            None
                        } else {
                            Some(SectionView {
                                title: pair_get(toc, path),
                                text: r.text,
                                language: if opf.language is Some { opf.language } else { detected_language(r.text) },
                                spans: r.spans,
                            })
                        }
                    },
                }
            }
        },
    }
}

/// The sections of the first `n` spine items.
pub open spec fn spine_sections(
    archive: Seq<u8>,
    opf: OpfModel,
    toc: Seq<(Seq<char>, Seq<char>)>,
    n: nat,
) -> Seq<SectionView>
    decreases n,
{
    if n == 0 || n > opf.spine.len() {
        Seq::empty()
    } else {
        let prev = spine_sections(archive, opf, toc, (n - 1) as nat);
        match section_for(archive, opf, toc, opf.spine[n - 1]) {
            Some(s) => prev.push(s),
            None => prev,
        }
    }
}

/// The sections of the book in the archive, or why it could not be read.
pub open spec fn sections_spec(archive: Seq<u8>) -> Result<Seq<SectionView>, EpubErrorView> {
    match container_spec(archive) {
        Err(e) => Err(e),
        Ok(p) => match opf_spec(archive, p) {
            Err(e) => Err(e),
            Ok(opf) => Ok(spine_sections(archive, opf, toc_spec(archive, opf), opf.spine.len())),
        },
    }
}

/// The view of a list of sections or an error.
pub open spec fn sections_result_view(r: Result<Vec<Section>, EpubError>) -> Result<Seq<SectionView>, EpubErrorView> {
    match r {
        Ok(v) => Ok(sections_view(v@)),
        Err(e) => Err(e@),
    }
}

/// Whether the media type names an (X)HTML document.
fn is_html_type_exec(media_type: &str) -> (r: bool)
    ensures
        r == is_html_type(media_type@),
{
    let m = chars_of(media_type);
    find_from_exec(&m, &chars_of("xhtml"), 0).is_some() || find_from_exec(&m, &chars_of("html"), 0).is_some()
}

/// The sections of the book held in the archive bytes, in spine order.
pub fn extract_sections(archive: &[u8]) -> (r: Result<Vec<Section>, EpubError>)
    ensures
        sections_result_view(r) == sections_spec(archive@),
{
    let opf_path = match find_opf_path(archive) {
        Ok(p) => p,
        Err(e) => return Err(e),
    };
    let opf = match parse_opf(archive, opf_path.as_str()) {
        Ok(o) => o,
        Err(e) => return Err(e),
    };
    let ghost om = opf.model();
    let mut toc: Vec<(String, String)> = Vec::new();
    assert(string_pairs_view(toc@) =~= Seq::<(Seq<char>, Seq<char>)>::empty());
    if let Some(ncx_id) = &opf.ncx_id {
        if let Some(i) = manifest_find(&opf.manifest, ncx_id.as_str()) {
            assert(manifest_view(opf.manifest@)[i as int].1 == opf.manifest@[i as int].1.href@);
            let ncx_path = resolve(opf.opf_dir.as_str(), opf.manifest[i].1.href.as_str());
            if let Ok(map) = parse_ncx(archive, ncx_path.as_str()) {
                toc = map;
            }
        }
    }
    assert(string_pairs_view(toc@) == toc_spec(archive@, om));
    let ghost tv = string_pairs_view(toc@);
    let mut sections: Vec<Section> = Vec::new();
    let mut k: usize = 0;
    assert(sections_view(sections@) =~= Seq::<SectionView>::empty());
    while k < opf.spine.len()
        invariant
            k <= opf.spine@.len(),
            om == opf.model(),
            tv == string_pairs_view(toc@),
            sections_view(sections@) == spine_sections(archive@, om, tv, k as nat),
        decreases opf.spine.len() - k,
    {
        assert(om.spine[k as int] == opf.spine@[k as int]@);
        let idref = opf.spine[k].as_str();
        k = k + 1;
        let i = match manifest_find(&opf.manifest, idref) {
            Some(i) => i,
            None => continue,
        };
        let item = &opf.manifest[i].1;
        assert(om.manifest[i as int] == (opf.manifest@[i as int].0@, item.href@, item.media_type@));
        if !is_html_type_exec(item.media_type.as_str()) {
            continue;
        }
        let zip_path = resolve(opf.opf_dir.as_str(), item.href.as_str());
        let xhtml = match read_zip_entry(archive, zip_path.as_str()) {
            Ok(s) => s,
            Err(_) => continue,
        };
        let xml_events_result = xml_events(xhtml.as_str(), false);
        let seg = render_events_exec(&xml_events_result);
        if seg.chars == 0 {
            continue;
        }
        let title = match pair_find(&toc, zip_path.as_str()) {
            Some(j) => {
                proof {
                    lemma_pair_index_valid(tv, zip_path@);
                }
                Some(toc[j].1.clone())
            },
            None => None,
        };
        let language = match &opf.language {
            Some(l) => Some(l.clone()),
            None => detect_language(seg.text.as_str()),
        };
        let ghost before = sections_view(sections@);
        proof {
            law_rendered_paragraphs_tile_text(events_view(xml_events_result@));
        }
        let section = Section {
            title,
            text: seg.text,
            language,
            segment_indices: seg.bytes,
            spans: seg.spans,
        };
        sections.push(section);
        assert(sections_view(sections@) =~= before.push(section@));
    }
    Ok(sections)
}

impl EpubScan {
    /// The book's sections, one per spine item with non-empty content.
    pub fn sections(&self) -> (r: &[Section])
        ensures
            sections_view(r@) == self@,
    {
        self.sections.as_slice()
    }

    /// Reads a book from the bytes of an EPUB file (bytes that are no ZIP archive
    /// give [`EpubError::NotZip`]).
    pub fn from_archive(archive: &[u8]) -> (r: Result<EpubScan, EpubError>)
        ensures
            match r {
                Ok(b) => sections_spec(archive@) == Ok::<Seq<SectionView>, EpubErrorView>(b@),
                Err(e) => sections_spec(archive@) == Err::<Seq<SectionView>, EpubErrorView>(e@),
            },
    {
        match extract_sections(archive) {
            Ok(sections) => Ok(EpubScan { sections }),
            Err(e) => Err(e),
        }
    }
}

} // verus!
