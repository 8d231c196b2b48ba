//! The package documents of an EPUB: `container.xml`, the OPF package (manifest,
//! spine, language, table-of-contents id) and the NCX table of contents.
use vstd::prelude::*;
use vstd::string::StringExecFns;
use crate::epubscan::archive::{read_entry_spec, read_zip_entry, text_result_view, EpubError, EpubErrorView};
use crate::epubscan::paths::{dir_of, dir_of_spec, resolve, resolve_spec};
use crate::epubscan::xml::{
    events_view, pairs_view, xml_attribute_pairs, xml_attribute_value, xml_attributes, xml_events,
    xml_tokens, xml_unescape_attribute, XmlEvent, XmlEventView,
};
use crate::formatter::opt_string_view;
use crate::text::{chars_of, str_eq, string_of, trim, trim_exec};

verus! {

/// The raw values of the attributes named `key`, in order.
pub open spec fn attr_values(pairs: Seq<(Seq<char>, Seq<char>)>, key: Seq<char>) -> Seq<Seq<char>>
    decreases pairs.len(),
{
    if pairs.len() == 0 {
        Seq::empty()
    } else {
        let rest = attr_values(pairs.drop_last(), key);
        if pairs.last().0 == key {
            rest.push(pairs.last().1)
        } else {
            rest
        }
    }
}

/// An attribute value expanded, or empty where it cannot be.
pub open spec fn decoded_or_empty(raw: Seq<char>) -> Seq<char> {
    match xml_attribute_value(raw) {
        Some(v) => v,
        None => Seq::empty(),
    }
}

/// The expanded value of the last attribute named `key`, or empty.
pub open spec fn last_value_or_empty(pairs: Seq<(Seq<char>, Seq<char>)>, key: Seq<char>) -> Seq<char> {
    let vs = attr_values(pairs, key);
    if vs.len() == 0 {
        Seq::empty()
    } else {
        decoded_or_empty(vs.last())
    }
}

/// The views of a list of strings.
pub open spec fn strings_view(v: Seq<String>) -> Seq<Seq<char>> {
    v.map_values(|s: String| s@)
}

/// The raw values of the attributes named `key` in a parsed attribute list.
fn attr_values_exec(pairs: &Vec<(String, String)>, key: &str) -> (r: Vec<String>)
    ensures
        strings_view(r@) == attr_values(pairs_view(pairs@), key@),
{
    let ghost ps = pairs_view(pairs@);
    let mut r: Vec<String> = Vec::new();
    let mut k: usize = 0;
    assert(ps.take(0) =~= Seq::<(Seq<char>, Seq<char>)>::empty());
    assert(strings_view(r@) =~= Seq::<Seq<char>>::empty());
    while k < pairs.len()
        invariant
            k <= pairs@.len(),
            ps == pairs_view(pairs@),
            strings_view(r@) == attr_values(ps.take(k as int), key@),
        decreases pairs.len() - k,
    {
        assert(ps.take(k + 1).drop_last() =~= ps.take(k as int));
        assert(ps.take(k + 1).last() == (pairs@[k as int].0@, pairs@[k as int].1@));
        let ghost before = r@;
        if str_eq(pairs[k].0.as_str(), key) {
            r.push(pairs[k].1.clone());
            assert(strings_view(r@) =~= strings_view(before).push(pairs@[k as int].1@));
        }
        k = k + 1;
    }
    assert(ps.take(k as int) =~= ps);
    r
}

/// The expanded value, or empty where it cannot be expanded.
fn decode_or_empty(raw: &str) -> (r: String)
    ensures
        r@ == decoded_or_empty(raw@),
{
    match xml_unescape_attribute(raw) {
        Some(v) => v,
        None => String::new(),
    }
}

/// The expanded value of the last attribute named `key`, or empty.
fn last_value_or_empty_exec(pairs: &Vec<(String, String)>, key: &str) -> (r: String)
    ensures
        r@ == last_value_or_empty(pairs_view(pairs@), key@),
{
    let vs = attr_values_exec(pairs, key);
    if vs.len() == 0 {
        String::new()
    } else {
        assert(strings_view(vs@).last() == vs@[vs.len() - 1]@);
        decode_or_empty(vs[vs.len() - 1].as_str())
    }
}

// ---------------------------------------------------------------------------
// container.xml

/// The raw `full-path` values of a `rootfile` element (nothing for other events).
pub open spec fn rootfile_found(e: XmlEventView) -> Seq<Seq<char>> {
    match e {
        XmlEventView::Start(n, raw) => if n == "rootfile"@ { attr_values(xml_attribute_pairs(raw), "full-path"@) } else { Seq::empty() },
        XmlEventView::Empty(n, raw) => if n == "rootfile"@ { attr_values(xml_attribute_pairs(raw), "full-path"@) } else { Seq::empty() },
        _ => Seq::empty(),
    }
}

/// The raw `full-path` values of a `rootfile` element.
fn rootfile_found_exec(e: &XmlEvent) -> (r: Vec<String>)
    ensures
        strings_view(r@) == rootfile_found(e@),
{
    match e {
        XmlEvent::Start(n, raw) | XmlEvent::Empty(n, raw) => {
            if str_eq(n.as_str(), "rootfile") {
                attr_values_exec(&xml_attributes(raw.as_str()), "full-path")
            } else {
                let r: Vec<String> = Vec::new();
                assert(strings_view(r@) =~= Seq::<Seq<char>>::empty());
                r
            }
        },
        _ => {
            let r: Vec<String> = Vec::new();
            assert(strings_view(r@) =~= Seq::<Seq<char>>::empty());
            r
        },
    }
}

/// What `container.xml` says from event `i` on: the first `rootfile` element with
/// a `full-path` attribute gives the OPF path (`None` inside when its value cannot
/// be expanded); `None` when there is no such element.
pub open spec fn rootfile_path(events: Seq<XmlEventView>, i: nat) -> Option<Option<Seq<char>>>
    decreases events.len() - i,
{
    if i >= events.len() {
        None
    } else {
        let found = rootfile_found(events[i as int]);
        if found.len() > 0 {
            Some(xml_attribute_value(found[0]))
        } else {
            rootfile_path(events, i + 1)
        }
    }
}

/// The OPF path named by the archive's `META-INF/container.xml`.
pub open spec fn container_spec(archive: Seq<u8>) -> Result<Seq<char>, EpubErrorView> {
    match read_entry_spec(archive, "META-INF/container.xml"@) {
        Err(e) => Err(e),
        Ok(xml) => match rootfile_path(xml_tokens(xml, true), 0) {
            Some(Some(p)) => Ok(p),
            Some(None) => Err(EpubErrorView::BadAttribute),
            None => Err(EpubErrorView::OpfPathNotFound),
        },
    }
}

/// The path of the OPF package document, from `META-INF/container.xml`.
pub fn find_opf_path(archive: &[u8]) -> (r: Result<String, EpubError>)
    ensures
        text_result_view(r) == container_spec(archive@),
{
    let xml = match read_zip_entry(archive, "META-INF/container.xml") {
        Ok(x) => x,
        Err(e) => return Err(e),
    };
    let events = xml_events(xml.as_str(), true);
    let ghost ev = events_view(events@);
    let mut i: usize = 0;
    while i < events.len()
        invariant
            i <= events@.len(),
            ev == events_view(events@),
            ev == xml_tokens(xml@, true),
            read_entry_spec(archive@, "META-INF/container.xml"@) == Ok::<Seq<char>, EpubErrorView>(xml@),
            rootfile_path(ev, i as nat) == rootfile_path(ev, 0),
        decreases events.len() - i,
    {
        assert(ev[i as int] == events@[i as int]@);
        let paths = rootfile_found_exec(&events[i]);
        if paths.len() > 0 {
            assert(strings_view(paths@)[0] == paths@[0]@);
            return match xml_unescape_attribute(paths[0].as_str()) {
                Some(p) => Ok(p),
                None => Err(EpubError::BadAttribute),
            };
        }
        i = i + 1;
    }
    Err(EpubError::OpfPathNotFound)
}

// ---------------------------------------------------------------------------
// OPF package document

/// One manifest entry: where the file is and what it holds.
#[derive(Debug)]
pub struct ManifestItem {
    pub href: String,
    pub media_type: String,
}

/// Manifest entries as (id, href, media type).
pub open spec fn manifest_view(m: Seq<(String, ManifestItem)>) -> Seq<(Seq<char>, Seq<char>, Seq<char>)> {
    m.map_values(|e: (String, ManifestItem)| (e.0@, e.1.href@, e.1.media_type@))
}

/// The position of the entry with this id.
pub open spec fn manifest_index(m: Seq<(Seq<char>, Seq<char>, Seq<char>)>, id: Seq<char>) -> Option<int>
    decreases m.len(),
{
    if m.len() == 0 {
        None
    } else {
        match manifest_index(m.drop_last(), id) {
            Some(i) => Some(i),
            None => if m.last().0 == id { Some(m.len() - 1) } else { None },
        }
    }
}

/// The manifest with an entry set: an existing id gets the new href and media type
/// in place, a new id is added at the end.
pub open spec fn manifest_insert(
    m: Seq<(Seq<char>, Seq<char>, Seq<char>)>,
    id: Seq<char>,
    href: Seq<char>,
    media_type: Seq<char>,
) -> Seq<(Seq<char>, Seq<char>, Seq<char>)> {
    match manifest_index(m, id) {
        Some(i) => m.update(i, (id, href, media_type)),
        None => m.push((id, href, media_type)),
    }
}

/// The manifest after an `item` element: it is recorded when both its `id` and its
/// `href` are non-empty (the last of each attribute counts).
pub open spec fn manifest_item_spec(
    m: Seq<(Seq<char>, Seq<char>, Seq<char>)>,
    raw: Seq<char>,
) -> Seq<(Seq<char>, Seq<char>, Seq<char>)> {
    let pairs = xml_attribute_pairs(raw);
    let id = last_value_or_empty(pairs, "id"@);
    let href = last_value_or_empty(pairs, "href"@);
    let media_type = last_value_or_empty(pairs, "media-type"@);
    if id.len() > 0 && href.len() > 0 {
        manifest_insert(m, id, href, media_type)
    } else {
        m
    }
}

/// The entry with this id, if any.
pub fn manifest_find(manifest: &Vec<(String, ManifestItem)>, id: &str) -> (r: Option<usize>)
    ensures
        match r {
            Some(i) => manifest_index(manifest_view(manifest@), id@) == Some(i as int) && i < manifest@.len(),
            None => manifest_index(manifest_view(manifest@), id@) is None,
        },
{
    let ghost mv = manifest_view(manifest@);
    let mut k: usize = 0;
    assert(mv.take(0) =~= Seq::<(Seq<char>, Seq<char>, Seq<char>)>::empty());
    while k < manifest.len()
        invariant
            k <= manifest@.len(),
            mv == manifest_view(manifest@),
            manifest_index(mv.take(k as int), id@) is None,
        decreases manifest.len() - k,
    {
        assert(mv.take(k + 1).drop_last() =~= mv.take(k as int));
        if str_eq(manifest[k].0.as_str(), id) {
            proof {
                lemma_manifest_index_prefix(mv, id@, k as int + 1);
            }
            return Some(k);
        }
        k = k + 1;
    }
    assert(mv.take(k as int) =~= mv);
    None
}

/// An id found in a prefix is found at the same place in the whole manifest.
pub proof fn lemma_manifest_index_prefix(m: Seq<(Seq<char>, Seq<char>, Seq<char>)>, id: Seq<char>, n: int)
    requires
        0 <= n <= m.len(),
        manifest_index(m.take(n), id) is Some,
    ensures
        manifest_index(m, id) == manifest_index(m.take(n), id),
    decreases m.len() - n,
{
    if n < m.len() {
        assert(m.take(n + 1).drop_last() =~= m.take(n));
        lemma_manifest_index_prefix(m, id, n + 1);
    } else {
        assert(m.take(n) =~= m);
    }
}

/// The position found by `manifest_index` holds the id.
pub proof fn lemma_manifest_index_valid(m: Seq<(Seq<char>, Seq<char>, Seq<char>)>, id: Seq<char>)
    ensures
        manifest_index(m, id) is Some ==> 0 <= manifest_index(m, id)->0 < m.len()
            && m[manifest_index(m, id)->0].0 == id,
    decreases m.len(),
{
    if m.len() > 0 {
        lemma_manifest_index_valid(m.drop_last(), id);
    }
}

/// Records an `item` element in the manifest.
pub fn parse_manifest_item(raw: &str, manifest: &mut Vec<(String, ManifestItem)>)
    ensures
        manifest_view(final(manifest)@) == manifest_item_spec(manifest_view(old(manifest)@), raw@),
{
    let pairs = xml_attributes(raw);
    let id = last_value_or_empty_exec(&pairs, "id");
    let href = last_value_or_empty_exec(&pairs, "href");
    let media_type = last_value_or_empty_exec(&pairs, "media-type");
    if id.as_str().unicode_len() > 0 && href.as_str().unicode_len() > 0 {
        let ghost before = manifest_view(manifest@);
        match manifest_find(manifest, id.as_str()) {
            Some(i) => {
                proof {
                    lemma_manifest_index_valid(before, id@);
                }
                manifest.set(i, (id, ManifestItem { href, media_type }));
                assert(manifest_view(manifest@) =~= before.update(i as int, (before[i as int].0, href@, media_type@)));
            },
            None => {
                manifest.push((id, ManifestItem { href, media_type }));
                assert(manifest_view(manifest@) =~= before.push((id@, href@, media_type@)));
            },
        }
    }
}

/// What the OPF reader has collected so far.
pub ghost struct OpfScan {
    pub manifest: Seq<(Seq<char>, Seq<char>, Seq<char>)>,
    pub spine: Seq<Seq<char>>,
    pub ncx_id: Option<Seq<char>>,
    pub language: Option<Seq<char>>,
    pub in_metadata: bool,
    pub in_language: bool,
}

/// The OPF reader before any event.
pub open spec fn opf_scan_start() -> OpfScan {
    OpfScan { manifest: seq![], spine: seq![], ncx_id: None, language: None, in_metadata: false, in_language: false }
}

/// The `idref` values of an `itemref` element, expanded.
pub open spec fn itemref_ids(raw: Seq<char>) -> Seq<Seq<char>> {
    attr_values(xml_attribute_pairs(raw), "idref"@).map_values(|v: Seq<char>| decoded_or_empty(v))
}

/// What one event of the OPF does to the reader.
pub open spec fn opf_step(s: OpfScan, e: XmlEventView) -> OpfScan {
    match e {
        XmlEventView::Start(n, raw) => {
            if n == "metadata"@ {
                OpfScan { in_metadata: true, ..s }
            } else if n == "language"@ && s.in_metadata {
                OpfScan { in_language: true, ..s }
            } else if n == "spine"@ {
                let tocs = attr_values(xml_attribute_pairs(raw), "toc"@);
                if tocs.len() > 0 {
                    OpfScan { ncx_id: Some(decoded_or_empty(tocs.last())), ..s }
                } else {
                    s
                }
            } else if n == "item"@ {
                OpfScan { manifest: manifest_item_spec(s.manifest, raw), ..s }
            } else if n == "itemref"@ {
                OpfScan { spine: s.spine + itemref_ids(raw), ..s }
            } else {
                s
            }
        },
        XmlEventView::Empty(n, raw) => {
            if n == "item"@ {
                OpfScan { manifest: manifest_item_spec(s.manifest, raw), ..s }
            } else if n == "itemref"@ {
                OpfScan { spine: s.spine + itemref_ids(raw), ..s }
            } else {
                s
            }
        },
        XmlEventView::End(n) => {
            if n == "metadata"@ {
                OpfScan { in_metadata: false, ..s }
            } else if n == "language"@ {
                OpfScan { in_language: false, ..s }
            } else {
                s
            }
        },
        XmlEventView::Text(t) => {
            if s.in_language && s.language is None && trim(t).len() > 0 {
                OpfScan { language: Some(trim(t)), ..s }
            } else {
                s
            }
        },
        _ => s,
    }
}

/// The OPF reader after the events from `i` on.
pub open spec fn opf_scan_from(events: Seq<XmlEventView>, i: nat, s: OpfScan) -> OpfScan
    decreases events.len() - i,
{
    if i >= events.len() {
        s
    } else {
        opf_scan_from(events, i + 1, opf_step(s, events[i as int]))
    }
}

/// The id of the first manifest entry of NCX media type.
pub open spec fn first_ncx_id(m: Seq<(Seq<char>, Seq<char>, Seq<char>)>) -> Option<Seq<char>>
    decreases m.len(),
{
    if m.len() == 0 {
        None
    } else if m[0].2 == "application/x-dtbncx+xml"@ {
        Some(m[0].0)
    } else {
        first_ncx_id(m.drop_first())
    }
}

/// The mathematical value of [`OpfData`].
pub ghost struct OpfModel {
    pub opf_dir: Seq<char>,
    pub manifest: Seq<(Seq<char>, Seq<char>, Seq<char>)>,
    pub spine: Seq<Seq<char>>,
    pub ncx_id: Option<Seq<char>>,
    pub language: Option<Seq<char>>,
}

/// What the OPF document at `opf_path` holds: the scanned manifest, spine and
/// language, and as table-of-contents id the spine's `toc` or else the first NCX
/// entry of the manifest.
pub open spec fn opf_model(opf_path: Seq<char>, xml: Seq<char>) -> OpfModel {
    let s = opf_scan_from(xml_tokens(xml, true), 0, opf_scan_start());
    OpfModel {
        opf_dir: dir_of_spec(opf_path),
        manifest: s.manifest,
        spine: s.spine,
        ncx_id: if s.ncx_id is None { first_ncx_id(s.manifest) } else { s.ncx_id },
        language: s.language,
    }
}

/// The OPF document of the archive, or why it could not be read.
pub open spec fn opf_spec(archive: Seq<u8>, opf_path: Seq<char>) -> Result<OpfModel, EpubErrorView> {
    match read_entry_spec(archive, opf_path) {
        Err(e) => Err(e),
        Ok(xml) => Ok(opf_model(opf_path, xml)),
    }
}

/// The contents of an OPF package document.
pub struct OpfData {
    pub opf_dir: String,
    pub manifest: Vec<(String, ManifestItem)>,
    pub spine: Vec<String>,
    pub ncx_id: Option<String>,
    pub language: Option<String>,
}

impl OpfData {
    /// The mathematical value of the package data.
    pub open spec fn model(&self) -> OpfModel {
        OpfModel {
            opf_dir: self.opf_dir@,
            manifest: manifest_view(self.manifest@),
            spine: strings_view(self.spine@),
            ncx_id: opt_string_view(self.ncx_id),
            language: opt_string_view(self.language),
        }
    }
}

/// The view of the OPF reader's executable state.
pub open spec fn opf_state_view(
    manifest: Seq<(String, ManifestItem)>,
    spine: Seq<String>,
    ncx_id: Option<String>,
    language: Option<String>,
    in_metadata: bool,
    in_language: bool,
) -> OpfScan {
    OpfScan {
        manifest: manifest_view(manifest),
        spine: strings_view(spine),
        ncx_id: opt_string_view(ncx_id),
        language: opt_string_view(language),
        in_metadata,
        in_language,
    }
}

/// Appends the expanded `idref` values of an `itemref` element to the spine.
fn push_itemrefs(raw: &str, spine: &mut Vec<String>)
    ensures
        strings_view(final(spine)@) == strings_view(old(spine)@) + itemref_ids(raw@),
{
    let ids = attr_values_exec(&xml_attributes(raw), "idref");
    let ghost start = strings_view(spine@);
    let ghost want = itemref_ids(raw@);
    let mut k: usize = 0;
    assert(want.take(0) =~= Seq::<Seq<char>>::empty());
    assert(start + want.take(0) =~= start);
    while k < ids.len()
        invariant
            k <= ids@.len(),
            want == strings_view(ids@).map_values(|v: Seq<char>| decoded_or_empty(v)),
            strings_view(spine@) == start + want.take(k as int),
        decreases ids.len() - k,
    {
        let v = decode_or_empty(ids[k].as_str());
        let ghost before = strings_view(spine@);
        spine.push(v);
        assert(strings_view(spine@) =~= before.push(v@));
        assert(want.take(k + 1) =~= want.take(k as int).push(want[k as int]));
        k = k + 1;
    }
    assert(want.take(k as int) =~= want);
}

/// The first manifest entry of NCX media type.
fn first_ncx_id_exec(manifest: &Vec<(String, ManifestItem)>) -> (r: Option<String>)
    ensures
        opt_string_view(r) == first_ncx_id(manifest_view(manifest@)),
{
    let ghost mv = manifest_view(manifest@);
    let mut k: usize = 0;
    assert(mv.skip(0) =~= mv);
    while k < manifest.len()
        invariant
            k <= manifest@.len(),
            mv == manifest_view(manifest@),
            first_ncx_id(mv.skip(k as int)) == first_ncx_id(mv),
        decreases manifest.len() - k,
    {
        assert(mv.skip(k as int)[0] == mv[k as int]);
        assert(mv.skip(k as int).drop_first() =~= mv.skip(k + 1));
        if str_eq(manifest[k].1.media_type.as_str(), "application/x-dtbncx+xml") {
            return Some(manifest[k].0.clone());
        }
        k = k + 1;
    }
    None
}

/// Reads the OPF package document at `opf_path`.
pub fn parse_opf(archive: &[u8], opf_path: &str) -> (r: Result<OpfData, EpubError>)
    ensures
        match r {
            Ok(d) => opf_spec(archive@, opf_path@) == Ok::<OpfModel, EpubErrorView>(d.model()),
            Err(e) => opf_spec(archive@, opf_path@) == Err::<OpfModel, EpubErrorView>(e@),
        },
{
    let xml = match read_zip_entry(archive, opf_path) {
        Ok(x) => x,
        Err(e) => return Err(e),
    };
    let opf_dir = String::from_str(dir_of(opf_path));
    let mut manifest: Vec<(String, ManifestItem)> = Vec::new();
    let mut spine: Vec<String> = Vec::new();
    let mut ncx_id: Option<String> = None;
    let mut language: Option<String> = None;
    let mut in_metadata = false;
    let mut in_language = false;
    let events = xml_events(xml.as_str(), true);
    let ghost ev = events_view(events@);
    let mut i: usize = 0;
    assert(manifest_view(manifest@) =~= Seq::<(Seq<char>, Seq<char>, Seq<char>)>::empty());
    assert(strings_view(spine@) =~= Seq::<Seq<char>>::empty());
    while i < events.len()
        invariant
            i <= events@.len(),
            ev == events_view(events@),
            opf_scan_from(ev, i as nat, opf_state_view(manifest@, spine@, ncx_id, language, in_metadata, in_language))
                == opf_scan_from(ev, 0, opf_scan_start()),
        decreases events.len() - i,
    {
        let ghost s0 = opf_state_view(manifest@, spine@, ncx_id, language, in_metadata, in_language);
        assert(ev[i as int] == events@[i as int]@);
        match &events[i] {
            XmlEvent::Start(n, raw) => {
                let n = n.as_str();
                if str_eq(n, "metadata") {
                    in_metadata = true;
                } else if str_eq(n, "language") && in_metadata {
                    in_language = true;
                } else if str_eq(n, "spine") {
                    let tocs = attr_values_exec(&xml_attributes(raw.as_str()), "toc");
                    if tocs.len() > 0 {
                        assert(strings_view(tocs@).last() == tocs@[tocs.len() - 1]@);
                        ncx_id = Some(decode_or_empty(tocs[tocs.len() - 1].as_str()));
                    }
                } else if str_eq(n, "item") {
                    parse_manifest_item(raw.as_str(), &mut manifest);
                } else if str_eq(n, "itemref") {
                    push_itemrefs(raw.as_str(), &mut spine);
                }
            },
            XmlEvent::Empty(n, raw) => {
                let n = n.as_str();
                if str_eq(n, "item") {
                    parse_manifest_item(raw.as_str(), &mut manifest);
                } else if str_eq(n, "itemref") {
                    push_itemrefs(raw.as_str(), &mut spine);
                }
            },
            XmlEvent::End(n) => {
                let n = n.as_str();
                if str_eq(n, "metadata") {
                    in_metadata = false;
                } else if str_eq(n, "language") {
                    in_language = false;
                }
            },
            XmlEvent::Text(t) => {
                if in_language && language.is_none() {
                    let v = trim_exec(&chars_of(t.as_str()));
                    if v.len() > 0 {
                        language = Some(string_of(&v));
                    }
                }
            },
            _ => {},
        }
        assert(opf_state_view(manifest@, spine@, ncx_id, language, in_metadata, in_language) == opf_step(s0, ev[i as int]));
        i = i + 1;
    }
    if ncx_id.is_none() {
        ncx_id = first_ncx_id_exec(&manifest);
    }
    Ok(OpfData { opf_dir, manifest, spine, ncx_id, language })
}

// ---------------------------------------------------------------------------
// NCX table of contents

/// The position of the first entry with this key.
pub open spec fn pair_index(m: Seq<(Seq<char>, Seq<char>)>, key: Seq<char>) -> Option<int>
    decreases m.len(),
{
    if m.len() == 0 {
        None
    } else {
        match pair_index(m.drop_last(), key) {
            Some(i) => Some(i),
            None => if m.last().0 == key { Some(m.len() - 1) } else { None },
        }
    }
}

/// The value stored under a key.
pub open spec fn pair_get(m: Seq<(Seq<char>, Seq<char>)>, key: Seq<char>) -> Option<Seq<char>> {
    match pair_index(m, key) {
        Some(i) => Some(m[i].1),
        None => None,
    }
}

/// The map with `key` set to `value` unless it is already present (the first entry
/// for a key wins).
pub open spec fn insert_if_absent(m: Seq<(Seq<char>, Seq<char>)>, key: Seq<char>, value: Seq<char>) -> Seq<(Seq<char>, Seq<char>)> {
    if pair_index(m, key) is Some {
        m
    } else {
        m.push((key, value))
    }
}

/// The views of a list of string pairs.
pub open spec fn string_pairs_view(m: Seq<(String, String)>) -> Seq<(Seq<char>, Seq<char>)> {
    m.map_values(|p: (String, String)| (p.0@, p.1@))
}

/// An index found in a prefix is found at the same place in the whole list.
pub proof fn lemma_pair_index_prefix(m: Seq<(Seq<char>, Seq<char>)>, key: Seq<char>, n: int)
    requires
        0 <= n <= m.len(),
        pair_index(m.take(n), key) is Some,
    ensures
        pair_index(m, key) == pair_index(m.take(n), key),
    decreases m.len() - n,
{
    if n < m.len() {
        assert(m.take(n + 1).drop_last() =~= m.take(n));
        lemma_pair_index_prefix(m, key, n + 1);
    } else {
        assert(m.take(n) =~= m);
    }
}

/// The position found by `pair_index` holds the key.
pub proof fn lemma_pair_index_valid(m: Seq<(Seq<char>, Seq<char>)>, key: Seq<char>)
    ensures
        pair_index(m, key) is Some ==> 0 <= pair_index(m, key)->0 < m.len() && m[pair_index(m, key)->0].0 == key,
    decreases m.len(),
{
    if m.len() > 0 {
        lemma_pair_index_valid(m.drop_last(), key);
    }
}

/// The position of the first entry with this key.
pub fn pair_find(m: &Vec<(String, String)>, key: &str) -> (r: Option<usize>)
    ensures
        match r {
            Some(i) => pair_index(string_pairs_view(m@), key@) == Some(i as int) && i < m@.len(),
            None => pair_index(string_pairs_view(m@), key@) is None,
        },
{
    let ghost mv = string_pairs_view(m@);
    let mut k: usize = 0;
    assert(mv.take(0) =~= Seq::<(Seq<char>, Seq<char>)>::empty());
    while k < m.len()
        invariant
            k <= m@.len(),
            mv == string_pairs_view(m@),
            pair_index(mv.take(k as int), key@) is None,
        decreases m.len() - k,
    {
        assert(mv.take(k + 1).drop_last() =~= mv.take(k as int));
        if str_eq(m[k].0.as_str(), key) {
            proof {
                lemma_pair_index_prefix(mv, key@, k as int + 1);
            }
            return Some(k);
        }
        k = k + 1;
    }
    assert(mv.take(k as int) =~= mv);
    None
}

/// What the NCX reader has collected so far.
pub ghost struct NcxScan {
    pub toc: Seq<(Seq<char>, Seq<char>)>,
    pub in_nav_label: bool,
    pub in_text: bool,
    pub label: Seq<char>,
    pub src: Seq<char>,
}

/// The NCX reader before any event.
pub open spec fn ncx_scan_start() -> NcxScan {
    NcxScan { toc: seq![], in_nav_label: false, in_text: false, label: seq![], src: seq![] }
}

/// The reader after a `content` element: its last `src`, resolved against the
/// NCX directory, becomes the current target.
pub open spec fn ncx_content(dir: Seq<char>, s: NcxScan, raw: Seq<char>) -> NcxScan {
    let srcs = attr_values(xml_attribute_pairs(raw), "src"@);
    if srcs.len() > 0 {
        NcxScan { src: resolve_spec(dir, decoded_or_empty(srcs.last())), ..s }
    } else {
        s
    }
}

/// What one event of the NCX does to the reader.
pub open spec fn ncx_step(dir: Seq<char>, s: NcxScan, e: XmlEventView) -> NcxScan {
    match e {
        XmlEventView::Start(n, raw) => {
            if n == "navLabel"@ {
                NcxScan { in_nav_label: true, label: seq![], ..s }
            } else if n == "text"@ && s.in_nav_label {
                NcxScan { in_text: true, ..s }
            } else if n == "content"@ {
                ncx_content(dir, s, raw)
            } else {
                s
            }
        },
        XmlEventView::Empty(n, raw) => {
            if n == "content"@ {
                ncx_content(dir, s, raw)
            } else {
                s
            }
        },
        XmlEventView::End(n) => {
            if n == "navLabel"@ {
                NcxScan { in_nav_label: false, in_text: false, ..s }
            } else if n == "text"@ {
                NcxScan { in_text: false, ..s }
            } else if n == "navPoint"@ {
                let toc = if s.src.len() > 0 && s.label.len() > 0 {
                    insert_if_absent(s.toc, s.src, trim(s.label))
                } else {
                    s.toc
                };
                NcxScan { toc, src: seq![], label: seq![], ..s }
            } else {
                s
            }
        },
        XmlEventView::Text(t) => {
            if s.in_text {
                NcxScan { label: s.label + t, ..s }
            } else {
                s
            }
        },
        _ => s,
    }
}

/// The NCX reader after the events from `i` on.
pub open spec fn ncx_scan_from(dir: Seq<char>, events: Seq<XmlEventView>, i: nat, s: NcxScan) -> NcxScan
    decreases events.len() - i,
{
    if i >= events.len() {
        s
    } else {
        ncx_scan_from(dir, events, i + 1, ncx_step(dir, s, events[i as int]))
    }
}

/// The table of contents of the NCX document at `path`: each navigation point's
/// resolved target mapped to its trimmed label, the first label for a target winning.
pub open spec fn ncx_spec(archive: Seq<u8>, path: Seq<char>) -> Result<Seq<(Seq<char>, Seq<char>)>, EpubErrorView> {
    match read_entry_spec(archive, path) {
        Err(e) => Err(e),
        Ok(xml) => Ok(ncx_scan_from(dir_of_spec(path), xml_tokens(xml, true), 0, ncx_scan_start()).toc),
    }
}

/// The view of the NCX reader's executable state.
pub open spec fn ncx_state_view(
    toc: Seq<(String, String)>,
    in_nav_label: bool,
    in_text: bool,
    label: Seq<char>,
    src: Seq<char>,
) -> NcxScan {
    NcxScan { toc: string_pairs_view(toc), in_nav_label, in_text, label, src }
}

/// The target of a `content` element, if it names one.
fn content_src(dir: &str, raw: &str) -> (r: Option<String>)
    ensures
        match r {
            Some(v) => attr_values(xml_attribute_pairs(raw@), "src"@).len() > 0
                && v@ == resolve_spec(dir@, decoded_or_empty(attr_values(xml_attribute_pairs(raw@), "src"@).last())),
            None => attr_values(xml_attribute_pairs(raw@), "src"@).len() == 0,
        },
{
    let srcs = attr_values_exec(&xml_attributes(raw), "src");
    if srcs.len() > 0 {
        assert(strings_view(srcs@).last() == srcs@[srcs.len() - 1]@);
        let v = decode_or_empty(srcs[srcs.len() - 1].as_str());
        Some(resolve(dir, v.as_str()))
    } else {
        None
    }
}

/// Reads the NCX table of contents at `ncx_zip_path`.
pub fn parse_ncx(archive: &[u8], ncx_zip_path: &str) -> (r: Result<Vec<(String, String)>, EpubError>)
    ensures
        match r {
            Ok(t) => ncx_spec(archive@, ncx_zip_path@) == Ok::<Seq<(Seq<char>, Seq<char>)>, EpubErrorView>(string_pairs_view(t@)),
            Err(e) => ncx_spec(archive@, ncx_zip_path@) == Err::<Seq<(Seq<char>, Seq<char>)>, EpubErrorView>(e@),
        },
{
    let ncx_dir = dir_of(ncx_zip_path);
    let xml = match read_zip_entry(archive, ncx_zip_path) {
        Ok(x) => x,
        Err(e) => return Err(e),
    };
    let mut toc: Vec<(String, String)> = Vec::new();
    let mut in_nav_label = false;
    let mut in_text = false;
    let mut label = String::new();
    let mut src = String::new();
    let events = xml_events(xml.as_str(), true);
    let ghost ev = events_view(events@);
    let ghost dir = dir_of_spec(ncx_zip_path@);
    let mut i: usize = 0;
    assert(string_pairs_view(toc@) =~= Seq::<(Seq<char>, Seq<char>)>::empty());
    while i < events.len()
        invariant
            i <= events@.len(),
            ev == events_view(events@),
            dir == ncx_dir@,
            ncx_scan_from(dir, ev, i as nat, ncx_state_view(toc@, in_nav_label, in_text, label@, src@))
                == ncx_scan_from(dir, ev, 0, ncx_scan_start()),
        decreases events.len() - i,
    {
        let ghost s0 = ncx_state_view(toc@, in_nav_label, in_text, label@, src@);
        assert(ev[i as int] == events@[i as int]@);
        match &events[i] {
            XmlEvent::Start(n, raw) => {
                let n = n.as_str();
                if str_eq(n, "navLabel") {
                    in_nav_label = true;
                    label = String::new();
                } else if str_eq(n, "text") && in_nav_label {
                    in_text = true;
                } else if str_eq(n, "content") {
                    if let Some(v) = content_src(ncx_dir, raw.as_str()) {
                        src = v;
                    }
                }
            },
            XmlEvent::Empty(n, raw) => {
                if str_eq(n.as_str(), "content") {
                    if let Some(v) = content_src(ncx_dir, raw.as_str()) {
                        src = v;
                    }
                }
            },
            XmlEvent::End(n) => {
                let n = n.as_str();
                if str_eq(n, "navLabel") {
                    in_nav_label = false;
                    in_text = false;
                } else if str_eq(n, "text") {
                    in_text = false;
                } else if str_eq(n, "navPoint") {
                    if src.as_str().unicode_len() > 0 && label.as_str().unicode_len() > 0 {
                        if pair_find(&toc, src.as_str()).is_none() {
                            let t = string_of(&trim_exec(&chars_of(label.as_str())));
                            let ghost before = string_pairs_view(toc@);
                            toc.push((src.clone(), t));
                            assert(string_pairs_view(toc@) =~= before.push((src@, t@)));
                        }
                    }
                    src = String::new();
                    label = String::new();
                }
            },
            XmlEvent::Text(t) => {
                if in_text {
                    label.append(t.as_str());
                }
            },
            _ => {},
        }
        assert(ncx_state_view(toc@, in_nav_label, in_text, label@, src@) == ncx_step(dir, s0, ev[i as int]));
        i = i + 1;
    }
    Ok(toc)
}

} // verus!
