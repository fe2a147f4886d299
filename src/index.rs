use vstd::prelude::*;

verus! {

/// One row of the note index.
#[derive(Debug)]
pub struct NoteRecord {
    pub id: i64,
    pub title: String,
    pub filename: String,
    /// RFC 3339 text.
    pub created_at: String,
    /// RFC 3339 text.
    pub updated_at: String,
}

/// What a `NoteRecord` holds, as plain values.
pub struct RecordView {
    pub id: i64,
    pub title: Seq<char>,
    pub filename: Seq<char>,
    pub created_at: Seq<char>,
    pub updated_at: Seq<char>,
}

impl View for NoteRecord {
    type V = RecordView;

    open spec fn view(&self) -> RecordView {
        RecordView {
            id: self.id,
            title: self.title@,
            filename: self.filename@,
            created_at: self.created_at@,
            updated_at: self.updated_at@,
        }
    }
}

impl NoteRecord {
    /// A copy of the record.
    pub fn duplicate(&self) -> (r: NoteRecord)
        ensures
            r@ == self@,
    {
        NoteRecord {
            id: self.id,
            title: self.title.clone(),
            filename: self.filename.clone(),
            created_at: self.created_at.clone(),
            updated_at: self.updated_at.clone(),
        }
    }
}

/// Whether `needle` occurs in `hay` as a contiguous run of characters.
pub open spec fn occurs_in(needle: Seq<char>, hay: Seq<char>) -> bool {
    exists|i: int| 0 <= i <= hay.len() - needle.len() && #[trigger] hay.subrange(i, i + needle.len()) == needle
}

/// Whether a record answers a search for `query`: its title or its file name
/// holds `query` as a substring, letters compared case-sensitively.
pub open spec fn answers(r: RecordView, query: Seq<char>) -> bool {
    occurs_in(query, r.title) || occurs_in(query, r.filename)
}

/// The records of `s` that answer `query`, in their order in `s`.
pub open spec fn answering(s: Seq<RecordView>, query: Seq<char>) -> Seq<RecordView>
    decreases s.len(),
{
    if s.len() == 0 {
        Seq::empty()
    } else {
        let p = answering(s.drop_last(), query);
        if answers(s.last(), query) {
            p.push(s.last())
        } else {
            p
        }
    }
}

pub open spec fn views(s: Seq<NoteRecord>) -> Seq<RecordView> {
    s.map_values(|r: NoteRecord| r@)
}

fn matches_at(hay: &Vec<char>, needle: &Vec<char>, i: usize) -> (r: bool)
    requires
        i + needle@.len() <= hay@.len(),
    ensures
        r == (hay@.subrange(i as int, i + needle@.len()) == needle@),
{
    let hl = hay.len();
    let mut k: usize = 0;
    while k < needle.len()
        invariant
            hl == hay@.len(),
            i + needle@.len() <= hay@.len(),
            k <= needle@.len(),
            forall|j: int| 0 <= j < k ==> hay@[i + j] == needle@[j],
        decreases needle@.len() - k,
    {
        if hay[i + k] != needle[k] {
            assert(hay@.subrange(i as int, i + needle@.len())[k as int] != needle@[k as int]);
            return false;
        }
        k = k + 1;
    }
    assert(hay@.subrange(i as int, i + needle@.len()) =~= needle@);
    true
}

/// Whether `needle` occurs in `hay`, case-sensitively.
pub fn contains_text(hay: &str, needle: &str) -> (r: bool)
    ensures
        r == occurs_in(needle@, hay@),
{
    let h = crate::naming::chars_of(hay);
    let n = crate::naming::chars_of(needle);
    if n.len() > h.len() {
        return false;
    }
    let last = h.len() - n.len();
    let mut i: usize = 0;
    while i <= last
        invariant
            h@ == hay@,
            n@ == needle@,
            last == h@.len() - n@.len(),
            i <= last + 1,
            forall|j: int| 0 <= j < i ==> #[trigger] h@.subrange(j, j + n@.len()) != n@,
        decreases last + 1 - i,
    {
        if matches_at(&h, &n, i) {
            return true;
        }
        if i == last {
            return false;
        }
        i = i + 1;
    }
    false
}

/// The records among `records` whose title or file name contains `query`,
/// case-sensitively, in their given order. An empty query keeps them all.
pub fn search_records(records: &Vec<NoteRecord>, query: &str) -> (r: Vec<NoteRecord>)
    ensures
        views(r@) == answering(views(records@), query@),
{
    let mut out: Vec<NoteRecord> = Vec::new();
    let mut i: usize = 0;
    while i < records.len()
        invariant
            i <= records@.len(),
            views(out@) == answering(views(records@.take(i as int)), query@),
        decreases records@.len() - i,
    {
        let rec = &records[i];
        let hit = contains_text(rec.title.as_str(), query) || contains_text(rec.filename.as_str(), query);
        let ghost prev = out@;
        if hit {
            out.push(rec.duplicate());
            assert(views(out@) =~= views(prev).push(rec@));
        }
        assert(views(records@.take(i + 1)).drop_last() =~= views(records@.take(i as int)));
        i = i + 1;
    }
    assert(records@.take(i as int) =~= records@);
    out
}

/// A search answers exactly the records whose title or file name contains the query,
/// and an empty query answers every record.
pub proof fn lemma_search_exact(s: Seq<RecordView>, query: Seq<char>)
    ensures
        forall|x: RecordView| answering(s, query).contains(x) <==> (s.contains(x) && answers(x, query)),
        query.len() == 0 ==> answering(s, query) == s,
    decreases s.len(),
{
    if s.len() > 0 {
        lemma_search_exact(s.drop_last(), query);
        assert(s =~= s.drop_last().push(s.last()));
        assert forall|x: RecordView| answering(s, query).contains(x) <==> (s.contains(x) && answers(x, query)) by {
            let p = answering(s.drop_last(), query);
            if s.contains(x) && answers(x, query) {
                let k = choose|k: int| 0 <= k < s.len() && s[k] == x;
                if k < s.len() - 1 {
                    assert(s.drop_last()[k] == x);
                    assert(s.drop_last().contains(x));
                    assert(p.contains(x));
                    let j = choose|j: int| 0 <= j < p.len() && p[j] == x;
                    if answers(s.last(), query) {
                        assert(p.push(s.last())[j] == x);
                    }
                } else {
                    assert(p.push(s.last())[p.len() as int] == x);
                }
            }
            if answering(s, query).contains(x) {
                let p = answering(s.drop_last(), query);
                if answers(s.last(), query) && x == s.last() {
                    assert(s[s.len() - 1] == x);
                } else {
                    assert(p.contains(x)) by {
                        if answers(s.last(), query) {
                            let k = choose|k: int| 0 <= k < p.push(s.last()).len() && p.push(s.last())[k] == x;
                            assert(k < p.len());
                            assert(p[k] == x);
                        }
                    }
                    assert(s.drop_last().contains(x));
                    let k2 = choose|k: int| 0 <= k < s.drop_last().len() && s.drop_last()[k] == x;
                    assert(s[k2] == x);
                }
            }
        }
        if query.len() == 0 {
            let t = s.last().title;
            assert(t.subrange(0int, 0int + query.len()) =~= query);
            assert(answers(s.last(), query));
            assert(answering(s, query) =~= s);
        }
    }
}

/// Strict order of texts: by character code at the first difference, a proper
/// prefix first.
pub open spec fn text_before(a: Seq<char>, b: Seq<char>) -> bool
    decreases a.len(),
{
    if a.len() == 0 {
        b.len() > 0
    } else if b.len() == 0 {
        false
    } else if a[0] != b[0] {
        a[0] < b[0]
    } else {
        text_before(a.drop_first(), b.drop_first())
    }
}

proof fn lemma_text_asym(a: Seq<char>, b: Seq<char>)
    ensures
        !(text_before(a, b) && text_before(b, a)),
    decreases a.len(),
{
    if a.len() > 0 && b.len() > 0 && a[0] == b[0] {
        lemma_text_asym(a.drop_first(), b.drop_first());
    }
}

proof fn lemma_text_trans(a: Seq<char>, b: Seq<char>, c: Seq<char>)
    requires
        text_before(a, b),
        text_before(b, c),
    ensures
        text_before(a, c),
    decreases a.len(),
{
    if a.len() > 0 && b.len() > 0 && c.len() > 0 && a[0] == b[0] && b[0] == c[0] {
        lemma_text_trans(a.drop_first(), b.drop_first(), c.drop_first());
    }
}

/// Whether `x` is listed before `y`: created later, or created at the same time
/// with a greater id.
pub open spec fn listed_before(x: RecordView, y: RecordView) -> bool {
    text_before(y.created_at, x.created_at) || (x.created_at == y.created_at && x.id > y.id)
}

/// Whether `s` is in listing order: most recent first, ties by descending id.
pub open spec fn in_listing_order(s: Seq<RecordView>) -> bool {
    forall|i: int, j: int| 0 <= i < j < s.len() ==> !listed_before(#[trigger] s[j], #[trigger] s[i])
}

proof fn lemma_listed_asym(x: RecordView, y: RecordView)
    ensures
        !(listed_before(x, y) && listed_before(y, x)),
{
    lemma_text_asym(x.created_at, y.created_at);
    if x.created_at == y.created_at {
        lemma_text_asym(x.created_at, x.created_at);
    }
}

proof fn lemma_listed_trans(x: RecordView, y: RecordView, z: RecordView)
    requires
        listed_before(x, y),
        listed_before(y, z),
    ensures
        listed_before(x, z),
{
    if text_before(y.created_at, x.created_at) && text_before(z.created_at, y.created_at) {
        lemma_text_trans(z.created_at, y.created_at, x.created_at);
    }
}

fn text_lt(a: &Vec<char>, b: &Vec<char>) -> (r: bool)
    ensures
        r == text_before(a@, b@),
{
    let mut i: usize = 0;
    assert(a@.skip(0) =~= a@ && b@.skip(0) =~= b@);
    while i < a.len() && i < b.len() && a[i] == b[i]
        invariant
            i <= a@.len(),
            i <= b@.len(),
            text_before(a@, b@) == text_before(a@.skip(i as int), b@.skip(i as int)),
        decreases a@.len() - i,
    {
        assert(a@.skip(i as int).drop_first() =~= a@.skip(i + 1));
        assert(b@.skip(i as int).drop_first() =~= b@.skip(i + 1));
        i = i + 1;
    }
    if i == a.len() {
        i < b.len()
    } else if i == b.len() {
        false
    } else {
        a[i] < b[i]
    }
}

/// Whether `x` is listed before `y`, given their creation times as characters.
fn listed_first(x: &NoteRecord, xc: &Vec<char>, y: &NoteRecord, yc: &Vec<char>) -> (r: bool)
    requires
        xc@ == x.created_at@,
        yc@ == y.created_at@,
    ensures
        r == listed_before(x@, y@),
{
    if text_lt(yc, xc) {
        true
    } else if text_lt(xc, yc) {
        false
    } else {
        proof {
            lemma_text_total(xc@, yc@);
        }
        x.id > y.id
    }
}

proof fn lemma_text_total(a: Seq<char>, b: Seq<char>)
    requires
        !text_before(a, b),
        !text_before(b, a),
    ensures
        a == b,
    decreases a.len(),
{
    if a.len() > 0 && b.len() > 0 {
        assert(a[0] == b[0]);
        lemma_text_total(a.drop_first(), b.drop_first());
        assert(a =~= seq![a[0]] + a.drop_first());
        assert(b =~= seq![b[0]] + b.drop_first());
    } else {
        assert(a =~= b);
    }
}

/// `records` in listing order: most recently created first, and among notes created
/// at the same time the greater id first. Creation times compare as texts.
pub fn order_by_recency(records: &Vec<NoteRecord>) -> (r: Vec<NoteRecord>)
    ensures
        in_listing_order(views(r@)),
        views(r@).to_multiset() == views(records@).to_multiset(),
{
    let mut out: Vec<NoteRecord> = Vec::new();
    let mut keys: Vec<Vec<char>> = Vec::new();
    let mut n: usize = 0;
    assert(views(records@.take(0)) =~= views(out@));
    while n < records.len()
        invariant
            n <= records@.len(),
            keys@.len() == out@.len(),
            forall|k: int| 0 <= k < out@.len() ==> (#[trigger] keys@[k])@ == out@[k].created_at@,
            in_listing_order(views(out@)),
            views(out@).to_multiset() == views(records@.take(n as int)).to_multiset(),
        decreases records@.len() - n,
    {
        let x = records[n].duplicate();
        let xc = crate::naming::chars_of(x.created_at.as_str());
        let mut p: usize = 0;
        while p < out.len() && !listed_first(&x, &xc, &out[p], &keys[p])
            invariant
                p <= out@.len(),
                keys@.len() == out@.len(),
                forall|k: int| 0 <= k < out@.len() ==> (#[trigger] keys@[k])@ == out@[k].created_at@,
                xc@ == x.created_at@,
                forall|k: int| 0 <= k < p ==> !listed_before(x@, #[trigger] views(out@)[k]),
            decreases out@.len() - p,
        {
            p = p + 1;
        }
        let ghost old_out = views(out@);
        let ghost old_raw = out@;
        let ghost old_keys = keys@;
        proof {
            assert forall|j: int| p <= j < old_out.len() implies !listed_before(#[trigger] old_out[j], x@) by {
                lemma_listed_asym(x@, old_out[p as int]);
                if j > p && listed_before(old_out[j], x@) {
                    lemma_listed_trans(old_out[j], x@, old_out[p as int]);
                }
            }
        }
        out.insert(p, x);
        keys.insert(p, xc);
        let ghost new_out = views(out@);
        assert(new_out =~= old_out.insert(p as int, x@));
        assert forall|i: int, j: int| 0 <= i < j < new_out.len() implies !listed_before(#[trigger] new_out[j], #[trigger] new_out[i]) by {
            if j < p {
                assert(new_out[i] == old_out[i] && new_out[j] == old_out[j]);
            } else if j == p {
                assert(new_out[i] == old_out[i]);
            } else if i < p {
                assert(new_out[i] == old_out[i] && new_out[j] == old_out[j - 1]);
            } else if i == p {
                assert(new_out[j] == old_out[j - 1]);
            } else {
                assert(new_out[i] == old_out[i - 1] && new_out[j] == old_out[j - 1]);
            }
        }
        assert forall|k: int| 0 <= k < out@.len() implies (#[trigger] keys@[k])@ == out@[k].created_at@ by {
            if k > p {
                assert(out@[k] == old_raw[k - 1] && keys@[k] == old_keys[k - 1]);
            } else if k < p {
                assert(out@[k] == old_raw[k] && keys@[k] == old_keys[k]);
            }
        }
        proof {
            vstd::seq_lib::to_multiset_insert(old_out, p as int, x@);
            assert(views(records@.take(n + 1)) =~= views(records@.take(n as int)).push(x@));
            vstd::seq_lib::to_multiset_build(views(records@.take(n as int)), x@);
        }
        n = n + 1;
    }
    assert(records@.take(n as int) =~= records@);
    out
}

} // verus!
