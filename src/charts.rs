use vstd::prelude::*;

verus! {

/// A chart found in an external editor's chart list, with the paths made
/// absolute and the modification time of its chart file in seconds since the
/// Unix epoch.
pub struct RPEChartInfo {
    pub name: String,
    pub id: String,
    pub path: String,
    pub illustration: String,
    pub charter: String,
    pub modified: u64,
}

/// One record of a chart list, as written there.
pub struct ChartEntry {
    pub name: String,
    pub id: String,
    pub chart: String,
    pub picture: String,
    pub charter: String,
}

/// Whether a character has the Unicode `White_Space` property.
pub open spec fn unicode_whitespace(c: char) -> bool {
    ||| c == ' '
    ||| ('\u{9}' <= c && c <= '\u{d}')
    ||| c == '\u{85}'
    ||| c == '\u{a0}'
    ||| c == '\u{1680}'
    ||| ('\u{2000}' <= c && c <= '\u{200a}')
    ||| c == '\u{2028}'
    ||| c == '\u{2029}'
    ||| c == '\u{202f}'
    ||| c == '\u{205f}'
    ||| c == '\u{3000}'
}

fn is_whitespace(c: char) -> (r: bool)
    ensures
        r == unicode_whitespace(c),
{
    c == ' ' || ('\u{9}' <= c && c <= '\u{d}') || c == '\u{85}' || c == '\u{a0}' || c
        == '\u{1680}' || ('\u{2000}' <= c && c <= '\u{200a}') || c == '\u{2028}' || c
        == '\u{2029}' || c == '\u{202f}' || c == '\u{205f}' || c == '\u{3000}'
}

pub open spec fn trim_start_spec(s: Seq<char>) -> Seq<char>
    decreases s.len(),
{
    if s.len() > 0 && unicode_whitespace(s[0]) {
        trim_start_spec(s.drop_first())
    } else {
        s
    }
}

pub open spec fn trim_end_spec(s: Seq<char>) -> Seq<char>
    decreases s.len(),
{
    if s.len() > 0 && unicode_whitespace(s.last()) {
        trim_end_spec(s.drop_last())
    } else {
        s
    }
}

/// `s` without white space at either end.
pub open spec fn trim_spec(s: Seq<char>) -> Seq<char> {
    trim_end_spec(trim_start_spec(s))
}

/// `s` without white space at either end.
pub fn trim(s: &str) -> (r: String)
    ensures
        r@ == trim_spec(s@),
{
    let n = s.unicode_len();
    let mut a: usize = 0;
    assert(s@.subrange(0, n as int) =~= s@);
    while a < n && is_whitespace(s.get_char(a))
        invariant
            a <= n,
            n == s@.len(),
            trim_start_spec(s@) == trim_start_spec(s@.subrange(a as int, n as int)),
        decreases n - a,
    {
        assert(s@.subrange(a as int, n as int).drop_first() =~= s@.subrange(a + 1, n as int));
        a = a + 1;
    }
    assert(trim_start_spec(s@) == s@.subrange(a as int, n as int));
    let mut b: usize = n;
    while b > a && is_whitespace(s.get_char(b - 1))
        invariant
            a <= b <= n,
            n == s@.len(),
            trim_spec(s@) == trim_end_spec(s@.subrange(a as int, b as int)),
        decreases b,
    {
        assert(s@.subrange(a as int, b as int).drop_last() =~= s@.subrange(a as int, b - 1));
        b = b - 1;
    }
    assert(trim_spec(s@) == s@.subrange(a as int, b as int));
    String::from_str(s.substring_char(a, b))
}

/// The fields of a record being read; each one is set by its key.
pub struct Fields {
    pub name: Option<Seq<char>>,
    pub id: Option<Seq<char>>,
    pub chart: Option<Seq<char>>,
    pub picture: Option<Seq<char>>,
    pub charter: Option<Seq<char>>,
}

pub open spec fn no_fields() -> Fields {
    Fields { name: None, id: None, chart: None, picture: None, charter: None }
}

/// A complete record as sequences: name, id, chart, picture, charter.
pub type EntryModel = (Seq<char>, Seq<char>, Seq<char>, Seq<char>, Seq<char>);

/// Closes a record. The fields are taken in the order id, chart, name,
/// picture, charter; at the first one that is missing the record is dropped,
/// and the fields not yet taken stay for the next record.
pub open spec fn commit_spec(f: Fields) -> (Fields, Option<EntryModel>) {
    if f.id is None {
        (f, None)
    } else if f.chart is None {
        (Fields { id: None, ..f }, None)
    } else if f.name is None {
        (Fields { id: None, chart: None, ..f }, None)
    } else if f.picture is None {
        (Fields { id: None, chart: None, name: None, ..f }, None)
    } else if f.charter is None {
        (Fields { id: None, chart: None, name: None, picture: None, ..f }, None)
    } else {
        (
            no_fields(),
            Some((f.name->0, f.id->0, f.chart->0, f.picture->0, f.charter->0)),
        )
    }
}

/// Position of the first ':' in `s`, if any.
pub open spec fn colon_at(s: Seq<char>, i: int) -> bool {
    0 <= i < s.len() && s[i] == ':' && forall|j: int| 0 <= j < i ==> s[j] != ':'
}

/// Sets the field named by `key` to `value`; other keys change nothing.
pub open spec fn set_field(f: Fields, key: Seq<char>, value: Seq<char>) -> Fields {
    if key == "Name"@ {
        Fields { name: Some(value), ..f }
    } else if key == "Path"@ {
        Fields { id: Some(value), ..f }
    } else if key == "Chart"@ {
        Fields { chart: Some(value), ..f }
    } else if key == "Picture"@ {
        Fields { picture: Some(value), ..f }
    } else if key == "Charter"@ {
        Fields { charter: Some(value), ..f }
    } else {
        f
    }
}

/// One line of a chart list: blank lines are skipped, `#` closes a record,
/// `key:value` sets a field, and anything else is skipped.
pub open spec fn line_spec(f: Fields, line: Seq<char>) -> (Fields, Option<EntryModel>) {
    let t = trim_spec(line);
    if t.len() == 0 {
        (f, None)
    } else if t == "#"@ {
        commit_spec(f)
    } else if exists|i: int| colon_at(t, i) {
        let i = choose|i: int| colon_at(t, i);
        (set_field(f, t.subrange(0, i), trim_spec(t.subrange(i + 1, t.len() as int))), None)
    } else {
        (f, None)
    }
}

/// The state after the lines, and the records closed on the way.
pub open spec fn lines_spec(lines: Seq<Seq<char>>) -> (Fields, Seq<EntryModel>)
    decreases lines.len(),
{
    if lines.len() == 0 {
        (no_fields(), Seq::empty())
    } else {
        let (f, out) = lines_spec(lines.drop_last());
        let (g, e) = line_spec(f, lines.last());
        match e {
            Some(x) => (g, out.push(x)),
            None => (g, out),
        }
    }
}

/// The records of a chart list: those closed by `#` lines, then the one left
/// at the end.
pub open spec fn chart_list_spec(lines: Seq<Seq<char>>) -> Seq<EntryModel> {
    let (f, out) = lines_spec(lines);
    match commit_spec(f).1 {
        Some(x) => out.push(x),
        None => out,
    }
}

pub open spec fn entry_model(e: ChartEntry) -> EntryModel {
    (e.name@, e.id@, e.chart@, e.picture@, e.charter@)
}

pub open spec fn string_seqs(v: Seq<String>) -> Seq<Seq<char>> {
    Seq::new(v.len(), |i: int| v[i]@)
}

pub open spec fn entry_models(v: Seq<ChartEntry>) -> Seq<EntryModel> {
    Seq::new(v.len(), |i: int| entry_model(v[i]))
}

/// The record fields being read, held as strings.
struct Reader {
    name: Option<String>,
    id: Option<String>,
    chart: Option<String>,
    picture: Option<String>,
    charter: Option<String>,
}

spec fn opt_view(o: Option<String>) -> Option<Seq<char>> {
    match o {
        Some(s) => Some(s@),
        None => None,
    }
}

impl Reader {
    spec fn model(&self) -> Fields {
        Fields {
            name: opt_view(self.name),
            id: opt_view(self.id),
            chart: opt_view(self.chart),
            picture: opt_view(self.picture),
            charter: opt_view(self.charter),
        }
    }

    fn commit(&mut self) -> (r: Option<ChartEntry>)
        ensures
            final(self).model() == commit_spec(old(self).model()).0,
            match (r, commit_spec(old(self).model()).1) {
                (Some(e), Some(m)) => entry_model(e) == m,
                (None, None) => true,
                _ => false,
            },
    {
        let id = match self.id.take() {
            Some(v) => v,
            None => return None,
        };
        let chart = match self.chart.take() {
            Some(v) => v,
            None => return None,
        };
        let name = match self.name.take() {
            Some(v) => v,
            None => return None,
        };
        let picture = match self.picture.take() {
            Some(v) => v,
            None => return None,
        };
        let charter = match self.charter.take() {
            Some(v) => v,
            None => return None,
        };
        Some(ChartEntry { name, id, chart, picture, charter })
    }

    fn set(&mut self, key: &str, value: String)
        ensures
            final(self).model() == set_field(old(self).model(), key@, value@),
    {
        proof {
            reveal_strlit("Name");
            reveal_strlit("Path");
            reveal_strlit("Chart");
            reveal_strlit("Picture");
            reveal_strlit("Charter");
        }
        if str_eq(key, "Name") {
            self.name = Some(value);
        } else if str_eq(key, "Path") {
            self.id = Some(value);
        } else if str_eq(key, "Chart") {
            self.chart = Some(value);
        } else if str_eq(key, "Picture") {
            self.picture = Some(value);
        } else if str_eq(key, "Charter") {
            self.charter = Some(value);
        }
    }
}

/// Whether two strings hold the same characters.
fn str_eq(a: &str, b: &str) -> (r: bool)
    ensures
        r == (a@ == b@),
{
    let n = a.unicode_len();
    let m = b.unicode_len();
    if n != m {
        return false;
    }
    let mut i: usize = 0;
    while i < n
        invariant
            i <= n,
            n == a@.len(),
            m == b@.len(),
            n == m,
            forall|j: int| 0 <= j < i ==> a@[j] == b@[j],
        decreases n - i,
    {
        if a.get_char(i) != b.get_char(i) {
            return false;
        }
        i = i + 1;
    }
    assert(a@ =~= b@);
    true
}

/// Position of the first ':' in `s`.
fn find_colon(s: &str) -> (r: Option<usize>)
    ensures
        match r {
            Some(i) => colon_at(s@, i as int),
            None => forall|i: int| 0 <= i < s@.len() ==> s@[i] != ':',
        },
{
    let n = s.unicode_len();
    let mut i: usize = 0;
    while i < n
        invariant
            i <= n,
            n == s@.len(),
            forall|j: int| 0 <= j < i ==> s@[j] != ':',
        decreases n - i,
    {
        if s.get_char(i) == ':' {
            return Some(i);
        }
        i = i + 1;
    }
    None
}

/// Reads the records of a chart list given as its lines.
pub fn parse_chart_list(lines: &Vec<String>) -> (r: Vec<ChartEntry>)
    ensures
        entry_models(r@) == chart_list_spec(string_seqs(lines@)),
{
    let ghost all = string_seqs(lines@);
    let mut reader = Reader { name: None, id: None, chart: None, picture: None, charter: None };
    let mut out: Vec<ChartEntry> = Vec::new();
    let mut i: usize = 0;
    while i < lines.len()
        invariant
            i <= lines@.len(),
            all == string_seqs(lines@),
            (reader.model(), entry_models(out@)) == lines_spec(all.subrange(0, i as int)),
        decreases lines@.len() - i,
    {
        let ghost before = out@;
        let ghost prefix = all.subrange(0, i + 1);
        assert(prefix.drop_last() =~= all.subrange(0, i as int));
        assert(prefix.last() == lines@[i as int]@);
        let t = trim(lines[i].as_str());
        proof {
            reveal_strlit("#");
        }
        if t.unicode_len() == 0 {
        } else if str_eq(t.as_str(), "#") {
            match reader.commit() {
                Some(e) => {
                    out.push(e);
                    assert(entry_models(out@) =~= entry_models(before).push(entry_model(e)));
                },
                None => {},
            }
        } else {
            match find_colon(t.as_str()) {
                Some(c) => {
                    let n = t.unicode_len();
                    let key = t.as_str().substring_char(0, c);
                    let value = trim(t.as_str().substring_char(c + 1, n));
                    reader.set(key, value);
                    proof {
                        let tt = trim_spec(lines@[i as int]@);
                        assert(colon_at(tt, c as int));
                        let k = choose|k: int| colon_at(tt, k);
                        assert(k == c) by {
                            if k < c {
                                assert(tt[k] == ':');
                            } else if k > c {
                                assert(tt[c as int] == ':');
                            }
                        }
                    }
                },
                None => {},
            }
        }
        i = i + 1;
    }
    assert(all.subrange(0, lines@.len() as int) =~= all);
    let ghost before = out@;
    match reader.commit() {
        Some(e) => {
            out.push(e);
            assert(entry_models(out@) =~= entry_models(before).push(entry_model(e)));
        },
        None => {},
    }
    out
}

/// Relies on `slice::sort_by_key` keyed by the modification time: the same
/// charts, in ascending order of that time.
#[verifier::external_body]
fn sort_by_modified(v: &mut Vec<RPEChartInfo>)
    ensures
        final(v)@.to_multiset() == old(v)@.to_multiset(),
        forall|i: int, j: int|
            0 <= i < j < final(v)@.len() ==> final(v)@[i].modified <= final(v)@[j].modified,
{
    v.sort_by_key(|c| c.modified)
}

/// The same charts, most recently modified first.
pub fn newest_first(charts: Vec<RPEChartInfo>) -> (r: Vec<RPEChartInfo>)
    ensures
        r@.to_multiset() == charts@.to_multiset(),
        forall|i: int, j: int| 0 <= i < j < r@.len() ==> r@[i].modified >= r@[j].modified,
{
    let mut v = charts;
    sort_by_modified(&mut v);
    let ghost sorted = v@;
    let mut r: Vec<RPEChartInfo> = Vec::new();
    while v.len() > 0
        invariant
            sorted.to_multiset() == charts@.to_multiset(),
            forall|i: int, j: int|
                0 <= i < j < sorted.len() ==> sorted[i].modified <= sorted[j].modified,
            v@ == sorted.subrange(0, v@.len() as int),
            v@.len() <= sorted.len(),
            r@ == sorted.subrange(v@.len() as int, sorted.len() as int).reverse(),
        decreases v@.len(),
    {
        let ghost n = v@.len();
        let c = v.pop().unwrap();
        r.push(c);
        assert(r@ =~= sorted.subrange(n - 1, sorted.len() as int).reverse());
    }
    proof {
        assert(sorted.subrange(0, sorted.len() as int) =~= sorted);
        sorted.lemma_reverse_to_multiset();
        assert forall|i: int, j: int| 0 <= i < j < r@.len() implies r@[i].modified >= r@[j].modified by {
            let n = sorted.len() as int;
            assert(r@[i] == sorted[n - 1 - i]);
            assert(r@[j] == sorted[n - 1 - j]);
        }
    }
    r
}

} // verus!
