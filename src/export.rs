//! The export side of the bulk pipeline: paged collection of search hits up
//! to a cap, and the flattening of hits into cells for tabular formats.

use vstd::prelude::*;
use vstd::string::*;
use crate::json::{json_get, json_text, json_to_text, same_text, take_member, Json, JsonView};
use crate::text::{split_char, split_text};

verus! {

/// Largest page that Elasticsearch serves for one search request.
pub const MAX_PAGE_SIZE: usize = 10000;

/// Number of records exported when the request names no cap.
pub const DEFAULT_MAX_RECORDS: u64 = 10000;

/// Number of hits asked for per page by default.
pub const DEFAULT_PAGE_SIZE: usize = 1000;

/// Collects search hits page by page. Each page asks for the hits from the
/// number already collected on; the run stops once the cap is reached, or a
/// page brings fewer hits than it asked for (none included).
pub struct ExportPager {
    page_size: usize,
    max_records: usize,
    collected: Vec<Json>,
    finished: bool,
}

/// The smaller of two numbers.
pub open spec fn min_int(a: int, b: int) -> int {
    if a <= b {
        a
    } else {
        b
    }
}

/// What a pager collects, as `(hits, pages)`, when it runs from `c` hits
/// collected against an index of `n` matching documents that answers each page
/// with all the hits it holds in the range asked for.
pub open spec fn run_against(n: nat, max: nat, page: nat, c: nat) -> (nat, nat)
    decreases max - c,
{
    if c >= max || page == 0 {
        (c, 0)
    } else {
        let size = min_int(page as int, max - c);
        let got = min_int(size, if n >= c { n - c } else { 0 });
        if got < size {
            ((c + got) as nat, 1)
        } else {
            let (f, p) = run_against(n, max, page, (c + got) as nat);
            (f, p + 1)
        }
    }
}

/// Paging ends, and it collects exactly the smaller of the index's size and
/// the cap: it neither stops early nor runs on.
pub proof fn lemma_pager_collects_all(n: nat, max: nat, page: nat, c: nat)
    requires
        page >= 1,
        c <= n,
        c <= max,
    ensures
        run_against(n, max, page, c).0 == min_int(n as int, max as int),
    decreases max - c,
{
    if c < max {
        let size = min_int(page as int, max - c);
        let got = min_int(size, n - c);
        if got >= size {
            lemma_pager_collects_all(n, max, page, (c + got) as nat);
        }
    }
}

impl ExportPager {
    pub closed spec fn page_size(&self) -> nat {
        self.page_size as nat
    }

    pub closed spec fn max_records(&self) -> nat {
        self.max_records as nat
    }

    /// The hits collected so far, in order.
    pub closed spec fn collected(&self) -> Seq<Json> {
        self.collected@
    }

    /// Whether a page brought fewer hits than it asked for.
    pub closed spec fn exhausted(&self) -> bool {
        self.finished
    }

    /// Whether no further page is to be asked for.
    pub open spec fn done(&self) -> bool {
        self.exhausted() || self.collected().len() >= self.max_records()
    }

    /// The size of the next page to ask for.
    pub open spec fn next_size(&self) -> nat {
        min_int(self.page_size() as int, self.max_records() - self.collected().len()) as nat
    }

    pub closed spec fn wf(&self) -> bool {
        &&& 1 <= self.page_size <= MAX_PAGE_SIZE
        &&& self.collected@.len() <= self.max_records
    }

    /// A pager asking for pages of `page_size` hits (at most the largest page
    /// the cluster serves) until `max_records` hits are collected.
    pub fn new(page_size: usize, max_records: usize) -> (r: ExportPager)
        requires
            page_size >= 1,
        ensures
            r.wf(),
            r.page_size() == min_int(page_size as int, MAX_PAGE_SIZE as int),
            r.max_records() == max_records,
            r.collected().len() == 0,
            !r.exhausted(),
    {
        let size = if page_size <= MAX_PAGE_SIZE {
            page_size
        } else {
            MAX_PAGE_SIZE
        };
        ExportPager { page_size: size, max_records, collected: Vec::new(), finished: false }
    }

    /// The next page to ask for, as `(from, size)`; nothing once done.
    pub fn next_page(&self) -> (r: Option<(usize, usize)>)
        requires
            self.wf(),
        ensures
            self.done() ==> r is None,
            !self.done() ==> r == Some((self.collected().len() as usize, self.next_size() as usize)),
            r matches Some((_, size)) ==> 1 <= size <= self.page_size(),
    {
        if self.finished || self.collected.len() >= self.max_records {
            return None;
        }
        let left: usize = self.max_records - self.collected.len();
        let size: usize = if self.page_size <= left {
            self.page_size
        } else {
            left
        };
        Some((self.collected.len(), size))
    }

    /// Takes in the hits of the page just asked for; at most the page's size
    /// of them are kept.
    pub fn record_page(&mut self, hits: Vec<Json>)
        requires
            old(self).wf(),
            !old(self).done(),
        ensures
            final(self).wf(),
            final(self).page_size() == old(self).page_size(),
            final(self).max_records() == old(self).max_records(),
            final(self).collected() == old(self).collected() + hits@.take(
                min_int(hits@.len() as int, old(self).next_size() as int),
            ),
            final(self).exhausted() == (hits@.len() < old(self).next_size()),
            !final(self).done() ==> final(self).collected().len() > old(self).collected().len(),
    {
        let size: usize = {
            let left: usize = self.max_records - self.collected.len();
            if self.page_size <= left {
                self.page_size
            } else {
                left
            }
        };
        let got: usize = hits.len();
        let keep: usize = if got <= size {
            got
        } else {
            size
        };
        let mut page = hits;
        page.truncate(keep);
        assert(page@ =~= hits@.take(keep as int));
        self.collected.append(&mut page);
        self.finished = got < size;
    }

    /// The hits collected, in order.
    pub fn into_documents(self) -> (r: Vec<Json>)
        ensures
            r@ == self.collected(),
    {
        self.collected
    }
}

/// The parts of a dotted path, as `str::split('.')` gives them.
pub open spec fn split_dots(s: Seq<char>) -> Seq<Seq<char>> {
    split_char(s, '.')
}

/// The value reached from `cur` by following the members named in `parts`.
pub open spec fn walk(cur: Json, parts: Seq<Seq<char>>) -> Option<Json>
    decreases parts.len(),
{
    if parts.len() == 0 {
        Some(cur)
    } else {
        match json_get(cur, parts[0]) {
            Some(v) => walk(v, parts.drop_first()),
            None => None,
        }
    }
}

/// Whether a path names one of the hit's own members rather than a field of
/// the document.
pub open spec fn is_meta_field(path: Seq<char>) -> bool {
    path == "_id"@ || path == "_score"@ || path == "_index"@
}

/// The field at a dotted path of a search hit: `_id`, `_score` and `_index`
/// are the hit's own; any other path is followed inside `_source` (inside the
/// hit itself when it has no `_source`).
pub open spec fn nested_field(doc: Json, path: Seq<char>) -> Option<Json> {
    if is_meta_field(path) {
        json_get(doc, path)
    } else {
        let base = match json_get(doc, "_source"@) {
            Some(src) => src,
            None => doc,
        };
        walk(base, split_dots(path))
    }
}

/// The text of a cell holding a value: empty for null, the literal text of a
/// boolean, number or string, and the compact JSON text of an array or object.
pub open spec fn cell_text(v: JsonView) -> Seq<char> {
    match v {
        JsonView::Null => Seq::empty(),
        JsonView::Bool(b) => if b {
            "true"@
        } else {
            "false"@
        },
        JsonView::Number(t) => t,
        JsonView::Str(s) => s,
        _ => json_text(v),
    }
}

/// The cell for a dotted path of a search hit.
pub open spec fn field_cell(doc: Json, path: Seq<char>) -> Seq<char> {
    match nested_field(doc, path) {
        Some(v) => cell_text(v@),
        None => Seq::empty(),
    }
}

/// Text order: lexicographic by code point, which is the byte order of the
/// UTF-8 forms.
pub open spec fn text_lt(a: Seq<char>, b: Seq<char>) -> bool
    decreases a.len(),
{
    if a.len() == 0 {
        b.len() > 0
    } else if b.len() == 0 {
        false
    } else if a[0] != b[0] {
        (a[0] as u32) < (b[0] as u32)
    } else {
        text_lt(a.drop_first(), b.drop_first())
    }
}

/// Two different texts are ordered one way or the other.
pub proof fn lemma_text_lt_total(a: Seq<char>, b: Seq<char>)
    requires
        a != b,
        !text_lt(b, a),
    ensures
        text_lt(a, b),
    decreases a.len(),
{
    if a.len() > 0 && b.len() > 0 && a[0] == b[0] {
        assert(a.drop_first() != b.drop_first()) by {
            if a.drop_first() == b.drop_first() {
                assert(a =~= seq![a[0]] + a.drop_first());
                assert(b =~= seq![b[0]] + b.drop_first());
            }
        }
        lemma_text_lt_total(a.drop_first(), b.drop_first());
    } else if a.len() > 0 && b.len() > 0 {
        if (a[0] as u32) == (b[0] as u32) {
            vstd::utf8::char_u32_cast(a[0], a[0] as u32);
            vstd::utf8::char_u32_cast(b[0], b[0] as u32);
        }
    } else if a.len() == 0 && b.len() == 0 {
        assert(a =~= b);
    }
}

/// Relies on `slice::sort` over `String`, whose order is the byte order of
/// the texts: the same texts, in non-decreasing order.
#[verifier::external_body]
fn sort_texts(v: &mut Vec<String>)
    ensures
        final(v)@.to_multiset() == old(v)@.to_multiset(),
        forall|i: int, j: int|
            0 <= i < j < final(v)@.len() ==> !text_lt(#[trigger] final(v)@[j]@, #[trigger] final(v)@[i]@),
{
    v.sort();
}

/// Number of leading hits whose `_source` keys make up the inferred header.
pub const HEADER_SAMPLE: usize = 10;

/// The member names of a hit's `_source` object, in order.
pub open spec fn source_names(doc: Json) -> Seq<Seq<char>> {
    match json_get(doc, "_source"@) {
        Some(Json::Object(fields)) => fields@.map_values(|f: (String, Json)| f.0@),
        _ => Seq::empty(),
    }
}

/// The member names of the `_source` objects of the first `i` hits.
pub open spec fn sample_names(data: Seq<Json>, i: nat) -> Seq<Seq<char>>
    decreases i,
{
    if i == 0 || i > data.len() {
        Seq::empty()
    } else {
        sample_names(data, (i - 1) as nat) + source_names(data[i - 1])
    }
}

/// The member names from which a table header is inferred.
pub open spec fn header_names(data: Seq<Json>) -> Seq<Seq<char>> {
    sample_names(data, min_int(data.len() as int, HEADER_SAMPLE as int) as nat)
}

/// Whether `h` is the header inferred from the hits: `_id`, `_score`, then
/// the `_source` member names of the first hits, once each, in text order.
pub open spec fn inferred_header(h: Seq<String>, data: Seq<Json>) -> bool {
    &&& h.len() >= 2
    &&& h[0]@ == "_id"@
    &&& h[1]@ == "_score"@
    &&& forall|k: int| 2 <= k < h.len() - 1 ==> text_lt(#[trigger] h[k]@, h[k + 1]@)
    &&& forall|key: Seq<char>| has_text(h.skip(2), key) <==> header_names(data).contains(key)
}

/// Whether some text of `v` reads `key`.
pub open spec fn has_text(v: Seq<String>, key: Seq<char>) -> bool {
    exists|i: int| 0 <= i < v.len() && #[trigger] v[i]@ == key
}

/// The selected members of a `_source` object, in the order of `fields`.
pub open spec fn picked(source: Json, fields: Seq<String>) -> Seq<(Seq<char>, JsonView)>
    decreases fields.len(),
{
    if fields.len() == 0 {
        Seq::empty()
    } else {
        picked(source, fields.drop_last()) + match json_get(source, fields.last()@) {
            Some(v) => seq![(fields.last()@, v@)],
            None => Seq::empty(),
        }
    }
}

/// A member of the hit itself, if present.
pub open spec fn kept(doc: Json, name: Seq<char>) -> Seq<(Seq<char>, JsonView)> {
    match json_get(doc, name) {
        Some(v) => seq![(name, v@)],
        None => Seq::empty(),
    }
}

/// A search hit cut down to the selected fields of its `_source`, with its
/// `_id` and `_score` kept.
pub open spec fn filtered(doc: Json, fields: Seq<String>) -> JsonView {
    let from_source = match json_get(doc, "_source"@) {
        Some(src) => picked(src, fields),
        None => Seq::empty(),
    };
    JsonView::Object(from_source + kept(doc, "_id"@) + kept(doc, "_score"@))
}

/// Writes documents out as flat tables or filtered JSON.
pub struct ExportService {}

impl ExportService {
    pub fn new() -> (r: ExportService) {
        ExportService {  }
    }

    /// The value at a dotted path of a search hit; null where there is none.
    pub fn get_nested_field(&self, doc: &Json, field_path: &str) -> (r: Json)
        ensures
            r@ == match nested_field(*doc, field_path@) {
                Some(v) => v@,
                None => JsonView::Null,
            },
    {
        match self.find_nested_field(doc, field_path) {
            Some(v) => v.copy(),
            None => Json::Null,
        }
    }

    /// The value at a dotted path of a search hit, by reference.
    pub fn find_nested_field<'a>(&self, doc: &'a Json, field_path: &str) -> (r: Option<&'a Json>)
        ensures
            match r {
                Some(v) => nested_field(*doc, field_path@) == Some(*v),
                None => nested_field(*doc, field_path@) is None,
            },
    {
        proof {
            reveal_strlit("_id");
            reveal_strlit("_score");
            reveal_strlit("_index");
        }
        if same_text(field_path, "_id") || same_text(field_path, "_score") || same_text(field_path, "_index") {
            return doc.get(field_path);
        }
        let parts = split_text(field_path, '.');
        let mut cur: &Json = match doc.get("_source") {
            Some(src) => src,
            None => doc,
        };
        let mut i: usize = 0;
        assert(split_dots(field_path@).skip(0) =~= split_dots(field_path@));
        while i < parts.len()
            invariant
                i <= parts@.len(),
                parts@.len() == split_dots(field_path@).len(),
                forall|k: int| 0 <= k < parts@.len() ==> #[trigger] parts@[k]@ == split_dots(field_path@)[k],
                nested_field(*doc, field_path@) == walk(*cur, split_dots(field_path@).skip(i as int)),
            decreases parts@.len() - i,
        {
            proof {
                let sp = split_dots(field_path@);
                assert(sp.skip(i as int).drop_first() =~= sp.skip(i + 1));
                assert(sp.skip(i as int)[0] == parts@[i as int]@);
            }
            match cur.get(parts[i].as_str()) {
                Some(v) => {
                    cur = v;
                },
                None => {
                    return None;
                },
            }
            i = i + 1;
        }
        assert(split_dots(field_path@).skip(i as int) =~= Seq::<Seq<char>>::empty());
        Some(cur)
    }

    /// A search hit cut down to the selected fields of its `_source`, with its
    /// `_id` and `_score` kept.
    pub fn filter_fields(&self, doc: &Json, fields: &Vec<String>) -> (r: Json)
        ensures
            r@ == filtered(*doc, fields@),
    {
        let mut out: Vec<(String, Json)> = Vec::new();
        proof {
            assert(crate::json::members_of(out@) =~= Seq::<(Seq<char>, JsonView)>::empty());
        }
        match doc.get("_source") {
            Some(src) => {
                let mut i: usize = 0;
                while i < fields.len()
                    invariant
                        i <= fields@.len(),
                        json_get(*doc, "_source"@) == Some(*src),
                        crate::json::members_of(out@) == picked(*src, fields@.take(i as int)),
                    decreases fields@.len() - i,
                {
                    proof {
                        assert(fields@.take(i + 1).drop_last() =~= fields@.take(i as int));
                        assert(fields@.take(i + 1).last() == fields@[i as int]);
                    }
                    match src.get(fields[i].as_str()) {
                        Some(v) => {
                            let member = (fields[i].clone(), v.copy());
                            proof {
                                crate::json::lemma_members_push(out@, member);
                            }
                            out.push(member);
                            assert(crate::json::members_of(out@) =~= picked(*src, fields@.take(i + 1)));
                        },
                        None => {
                            assert(crate::json::members_of(out@) =~= picked(*src, fields@.take(i + 1)));
                        },
                    }
                    i = i + 1;
                }
                assert(fields@.take(i as int) =~= fields@);
            },
            None => {},
        }
        let ghost from_source = crate::json::members_of(out@);
        match doc.get("_id") {
            Some(v) => {
                let member = (String::from_str("_id"), v.copy());
                proof {
                    crate::json::lemma_members_push(out@, member);
                }
                out.push(member);
            },
            None => {},
        }
        assert(crate::json::members_of(out@) =~= from_source + kept(*doc, "_id"@));
        let ghost with_id = crate::json::members_of(out@);
        match doc.get("_score") {
            Some(v) => {
                let member = (String::from_str("_score"), v.copy());
                proof {
                    crate::json::lemma_members_push(out@, member);
                }
                out.push(member);
            },
            None => {},
        }
        assert(crate::json::members_of(out@) =~= with_id + kept(*doc, "_score"@));
        Json::Object(out)
    }

    /// The text of a cell holding `value`.
    pub fn value_to_string(&self, value: &Json) -> (r: String)
        ensures
            r@ == cell_text(value@),
    {
        match value {
            Json::Null => String::new(),
            Json::Bool(b) => if *b {
                String::from_str("true")
            } else {
                String::from_str("false")
            },
            Json::Number(t) => t.clone(),
            Json::Str(s) => s.clone(),
            _ => json_to_text(value),
        }
    }

    /// The header of a table export: the selected fields, or those inferred
    /// from the hits; nothing when there are no hits to export.
    pub fn table_header(&self, data: &Vec<Json>, selected: &Option<Vec<String>>) -> (r: Option<Vec<String>>)
        ensures
            data@.len() == 0 ==> r is None,
            data@.len() > 0 ==> match selected {
                Some(fields) => (r matches Some(h) && h@ == fields@),
                None => (r matches Some(h) && inferred_header(h@, data@)),
            },
    {
        if data.len() == 0 {
            return None;
        }
        match selected {
            Some(fields) => {
                let mut out: Vec<String> = Vec::new();
                let mut i: usize = 0;
                while i < fields.len()
                    invariant
                        i <= fields@.len(),
                        out@ == fields@.take(i as int),
                    decreases fields@.len() - i,
                {
                    out.push(fields[i].clone());
                    i = i + 1;
                    assert(out@ =~= fields@.take(i as int));
                }
                assert(out@ =~= fields@);
                Some(out)
            },
            None => Some(self.extract_all_fields(data)),
        }
    }

    /// The cell for a dotted path of a search hit.
    pub fn field_cell(&self, doc: &Json, field_path: &str) -> (r: String)
        ensures
            r@ == field_cell(*doc, field_path@),
    {
        match self.find_nested_field(doc, field_path) {
            Some(v) => self.value_to_string(v),
            None => String::new(),
        }
    }

    /// One row of cells per hit, one cell per header.
    pub fn table_rows(&self, data: &Vec<Json>, headers: &Vec<String>) -> (r: Vec<Vec<String>>)
        ensures
            r@.len() == data@.len(),
            forall|i: int| 0 <= i < data@.len() ==> #[trigger] r@[i]@.len() == headers@.len(),
            forall|i: int, j: int|
                0 <= i < data@.len() && 0 <= j < headers@.len() ==> #[trigger] r@[i]@[j]@ == field_cell(
                    data@[i],
                    headers@[j]@,
                ),
    {
        let mut rows: Vec<Vec<String>> = Vec::new();
        let mut i: usize = 0;
        while i < data.len()
            invariant
                i <= data@.len(),
                rows@.len() == i,
                forall|a: int| 0 <= a < i ==> #[trigger] rows@[a]@.len() == headers@.len(),
                forall|a: int, b: int|
                    0 <= a < i && 0 <= b < headers@.len() ==> #[trigger] rows@[a]@[b]@ == field_cell(
                        data@[a],
                        headers@[b]@,
                    ),
            decreases data@.len() - i,
        {
            let mut row: Vec<String> = Vec::new();
            let mut j: usize = 0;
            while j < headers.len()
                invariant
                    i < data@.len(),
                    j <= headers@.len(),
                    row@.len() == j,
                    forall|b: int| 0 <= b < j ==> #[trigger] row@[b]@ == field_cell(data@[i as int], headers@[b]@),
                decreases headers@.len() - j,
            {
                row.push(self.field_cell(&data[i], headers[j].as_str()));
                j = j + 1;
            }
            rows.push(row);
            i = i + 1;
        }
        rows
    }

    /// The header of a table: `_id`, `_score`, then every member name of the
    /// `_source` objects of the first hits, once each, in text order.
    pub fn extract_all_fields(&self, data: &Vec<Json>) -> (r: Vec<String>)
        ensures
            r@.len() >= 2,
            r@[0]@ == "_id"@,
            r@[1]@ == "_score"@,
            forall|k: int| 2 <= k < r@.len() - 1 ==> text_lt(#[trigger] r@[k]@, r@[k + 1]@),
            forall|key: Seq<char>| has_text(r@.skip(2), key) <==> header_names(data@).contains(key),
            inferred_header(r@, data@),
    {
        let keys = source_keys(data);
        let ghost collected = keys@;
        let mut names = sorted_unique(keys);
        let ghost sorted = names@;
        let mut out: Vec<String> = Vec::new();
        out.push(String::from_str("_id"));
        out.push(String::from_str("_score"));
        out.append(&mut names);
        proof {
            assert(out@.skip(2) =~= sorted);
            assert forall|k: int| 2 <= k < out@.len() - 1 implies text_lt(#[trigger] out@[k]@, out@[k + 1]@) by {
                assert(out@[k] == sorted[k - 2]);
                assert(out@[k + 1] == sorted[k - 1]);
            }
            assert forall|key: Seq<char>| has_text(out@.skip(2), key) <==> header_names(data@).contains(key) by {
                lemma_has_text_views(collected, key);
            }
        }
        out
    }
}

/// The texts, each once, in strictly increasing text order.
pub fn sorted_unique(texts: Vec<String>) -> (r: Vec<String>)
    ensures
        forall|k: int| 0 <= k < r@.len() - 1 ==> text_lt(#[trigger] r@[k]@, r@[k + 1]@),
        forall|key: Seq<char>| has_text(r@, key) <==> has_text(texts@, key),
{
    let mut keys = texts;
    sort_texts(&mut keys);
    proof {
        assert forall|key: Seq<char>| has_text(keys@, key) <==> has_text(texts@, key) by {
            lemma_has_text_same_multiset(keys@, texts@, key);
        }
    }
    let mut out: Vec<String> = Vec::new();
    let mut m: usize = 0;
    while m < keys.len()
        invariant
            m <= keys@.len(),
            forall|k: int| 0 <= k < out@.len() - 1 ==> text_lt(#[trigger] out@[k]@, out@[k + 1]@),
            m > 0 ==> out@.len() > 0 && out@.last()@ == keys@[m - 1]@,
            m == 0 ==> out@.len() == 0,
            forall|i2: int, j2: int|
                0 <= i2 < j2 < keys@.len() ==> !text_lt(#[trigger] keys@[j2]@, #[trigger] keys@[i2]@),
            forall|key: Seq<char>| has_text(out@, key) <==> has_text(keys@.take(m as int), key),
            forall|key: Seq<char>| has_text(keys@, key) <==> has_text(texts@, key),
        decreases keys@.len() - m,
    {
        let fresh = m == 0 || !same_text(keys[m - 1].as_str(), keys[m].as_str());
        proof {
            assert(keys@.take(m + 1) =~= keys@.take(m as int).push(keys@[m as int]));
        }
        if fresh {
            let k = keys[m].clone();
            proof {
                if m > 0 {
                    lemma_text_lt_total(keys@[m - 1]@, keys@[m as int]@);
                }
                assert forall|key: Seq<char>| has_text(out@.push(k), key) <==> has_text(keys@.take(m + 1), key) by {
                    lemma_has_text_push(out@, k, key);
                    lemma_has_text_push(keys@.take(m as int), keys@[m as int], key);
                }
            }
            out.push(k);
        } else {
            proof {
                assert forall|key: Seq<char>| has_text(out@, key) <==> has_text(keys@.take(m + 1), key) by {
                    lemma_has_text_push(keys@.take(m as int), keys@[m as int], key);
                    if key == keys@[m as int]@ {
                        assert(out@[out@.len() - 1]@ == key);
                    }
                }
            }
        }
        m = m + 1;
    }
    proof {
        assert(keys@.take(keys@.len() as int) =~= keys@);
        assert forall|key: Seq<char>| has_text(out@, key) <==> has_text(texts@, key) by {
            assert(has_text(out@, key) <==> has_text(keys@.take(m as int), key));
            assert(has_text(keys@, key) <==> has_text(texts@, key));
        }
    }
    out
}

proof fn lemma_has_text_push(v: Seq<String>, k: String, key: Seq<char>)
    ensures
        has_text(v.push(k), key) <==> (has_text(v, key) || k@ == key),
{
    if has_text(v.push(k), key) {
        let t = choose|t: int| 0 <= t < v.push(k).len() && #[trigger] v.push(k)[t]@ == key;
        if t < v.len() {
            assert(v[t]@ == key);
        }
    }
    if has_text(v, key) {
        let t = choose|t: int| 0 <= t < v.len() && #[trigger] v[t]@ == key;
        assert(v.push(k)[t]@ == key);
    }
    if k@ == key {
        assert(v.push(k)[v.len() as int]@ == key);
    }
}

proof fn lemma_has_text_same_multiset(a: Seq<String>, b: Seq<String>, key: Seq<char>)
    requires
        a.to_multiset() == b.to_multiset(),
    ensures
        has_text(a, key) <==> has_text(b, key),
{
    broadcast use vstd::seq_lib::group_to_multiset_ensures;

    if has_text(a, key) {
        let t = choose|t: int| 0 <= t < a.len() && #[trigger] a[t]@ == key;
        assert(a.contains(a[t]));
        assert(a.to_multiset().count(a[t]) > 0);
        assert(b.to_multiset().count(a[t]) > 0);
        assert(b.contains(a[t]));
        let u = choose|u: int| 0 <= u < b.len() && b[u] == a[t];
        assert(b[u]@ == key);
    }
    if has_text(b, key) {
        let t = choose|t: int| 0 <= t < b.len() && #[trigger] b[t]@ == key;
        assert(b.contains(b[t]));
        assert(b.to_multiset().count(b[t]) > 0);
        assert(a.to_multiset().count(b[t]) > 0);
        assert(a.contains(b[t]));
        let u = choose|u: int| 0 <= u < a.len() && a[u] == b[t];
        assert(a[u]@ == key);
    }
}

pub proof fn lemma_has_text_views(v: Seq<String>, key: Seq<char>)
    ensures
        has_text(v, key) <==> v.map_values(|s: String| s@).contains(key),
{
    let w = v.map_values(|s: String| s@);
    if has_text(v, key) {
        let t = choose|t: int| 0 <= t < v.len() && #[trigger] v[t]@ == key;
        assert(w[t] == key);
    }
    if w.contains(key) {
        let t = choose|t: int| 0 <= t < w.len() && w[t] == key;
        assert(v[t]@ == key);
    }
}

/// The member names of the `_source` objects of the first hits, in order and
/// with repetitions.
fn source_keys(data: &Vec<Json>) -> (r: Vec<String>)
    ensures
        r@.map_values(|s: String| s@) == header_names(data@),
{
    let limit: usize = if data.len() < HEADER_SAMPLE {
        data.len()
    } else {
        HEADER_SAMPLE
    };
    let mut keys: Vec<String> = Vec::new();
    let mut i: usize = 0;
    while i < limit
        invariant
            limit == min_int(data@.len() as int, HEADER_SAMPLE as int),
            i <= limit,
            keys@.map_values(|s: String| s@) == sample_names(data@, i as nat),
        decreases limit - i,
    {
        let ghost before = keys@.map_values(|s: String| s@);
        match data[i].get("_source") {
            Some(Json::Object(fields)) => {
                let mut j: usize = 0;
                while j < fields.len()
                    invariant
                        i < limit,
                        limit <= data@.len(),
                        j <= fields@.len(),
                        json_get(data@[i as int], "_source"@) == Some(Json::Object(*fields)),
                        keys@.map_values(|s: String| s@) == before + fields@.take(j as int).map_values(
                            |f: (String, Json)| f.0@,
                        ),
                    decreases fields@.len() - j,
                {
                    let k = fields[j].0.clone();
                    proof {
                        assert(keys@.push(k).map_values(|s: String| s@) =~= keys@.map_values(|s: String| s@).push(k@));
                        assert(fields@.take(j + 1).map_values(|f: (String, Json)| f.0@) =~= fields@.take(
                            j as int,
                        ).map_values(|f: (String, Json)| f.0@).push(k@));
                    }
                    keys.push(k);
                    j = j + 1;
                }
                proof {
                    assert(fields@.take(j as int) =~= fields@);
                    assert(source_names(data@[i as int]) == fields@.map_values(|f: (String, Json)| f.0@));
                }
            },
            _ => {
                proof {
                    assert(source_names(data@[i as int]) =~= Seq::<Seq<char>>::empty());
                }
            },
        }
        assert(keys@.map_values(|s: String| s@) =~= sample_names(data@, (i + 1) as nat));
        i = i + 1;
    }
    keys
}

/// The hits of a search response: the array at `hits.hits`, or none.
pub open spec fn response_hits(response: Json) -> Seq<Json> {
    match json_get(response, "hits"@) {
        Some(h) => match json_get(h, "hits"@) {
            Some(Json::Array(items)) => items@,
            _ => Seq::empty(),
        },
        None => Seq::empty(),
    }
}

/// The hits of a search response.
pub fn search_hits(response: Json) -> (r: Vec<Json>)
    ensures
        r@ == response_hits(response),
{
    match take_member(response, "hits") {
        Some(h) => match take_member(h, "hits") {
            Some(Json::Array(items)) => items,
            _ => Vec::new(),
        },
        None => Vec::new(),
    }
}

} // verus!
