use vstd::prelude::*;
use vstd::string::StringExecFns;
use crate::manifest::ManifestRecord;
use crate::split::Split;
use crate::text::{decimal, decimal_string, extension, extension_of, join_path, joined, sanitize, sanitized};
use crate::text::lemma_decimal_injective;

verus! {

/// What can go wrong in a conversion.
#[derive(Debug)]
pub enum LJSpeechError {
    DirError(String),
    FileNotFoundError(String),
    FormatError(String),
    OtherError(String),
}

/// A conversion run: the corpus roots, the output location, the enabled
/// splits, and one index counter per split shared by all roots.
pub struct LJSpeech {
    pub abs_paths: Vec<String>,
    pub dev: bool,
    pub train: bool,
    pub test: bool,
    pub validated: bool,
    pub output_location: String,
    pub index_dev: u64,
    pub index_train: u64,
    pub index_test: u64,
    pub index_validated: u64,
}

/// What one manifest record turns into: its index, the clip to copy, where
/// the copy goes, and the metadata line.
#[derive(Clone, Debug)]
pub struct Entry {
    pub index: u64,
    pub source: String,
    pub dest: String,
    pub line: String,
}

impl Entry {
    pub open spec fn view(&self) -> (nat, Seq<char>, Seq<char>, Seq<char>) {
        (self.index as nat, self.source@, self.dest@, self.line@)
    }
}

/// The canonical stem `<split>_<i>`.
pub open spec fn stem_of(split: Split, i: nat) -> Seq<char> {
    split.name_spec() + seq!['_'] + decimal(i)
}

/// The entry for record `rec` = (clip path, transcript) of `root`, given index `i`.
pub open spec fn entry_of(
    out: Seq<char>,
    root: Seq<char>,
    split: Split,
    i: nat,
    rec: (Seq<char>, Seq<char>),
) -> (nat, Seq<char>, Seq<char>, Seq<char>) {
    let stem = stem_of(split, i);
    (
        i,
        joined(joined(root, seq!['c', 'l', 'i', 'p', 's']), rec.0),
        joined(joined(out, split.name_spec() + seq!['_', 'c', 'l', 'i', 'p', 's']), stem.push('.') + extension_of(rec.0)),
        stem.push('|') + sanitized(rec.1),
    )
}

/// The entries that records `recs` of `root` get when the split's counter stands at `start`.
pub open spec fn batch(
    out: Seq<char>,
    root: Seq<char>,
    split: Split,
    start: nat,
    recs: Seq<(Seq<char>, Seq<char>)>,
) -> Seq<(nat, Seq<char>, Seq<char>, Seq<char>)> {
    Seq::new(recs.len(), |k: int| entry_of(out, root, split, start + k as nat, recs[k]))
}

pub open spec fn option_or(o: Option<bool>, d: bool) -> bool {
    match o {
        Some(b) => b,
        None => d,
    }
}

/// `i` is the first position at which `exist` is false.
pub open spec fn first_missing_at(exist: Seq<bool>, i: int) -> bool {
    0 <= i < exist.len() && !exist[i] && forall|j: int| 0 <= j < i ==> #[trigger] exist[j]
}

/// The output location, `.` where none is given.
pub open spec fn output_or_default(o: Option<String>) -> Seq<char> {
    match o {
        Some(s) => s@,
        None => seq!['.'],
    }
}

/// The enabled splits in canonical order.
pub open spec fn enabled_spec(dev: bool, train: bool, test: bool, validated: bool) -> Seq<Split> {
    (if dev { seq![Split::Dev] } else { seq![] }) + (if train { seq![Split::Train] } else { seq![] })
        + (if test { seq![Split::Test] } else { seq![] }) + (if validated { seq![Split::Validated] } else { seq![] })
}

/// The output location, or `.` where none is given.
pub fn output_location_or_default(o: Option<String>) -> (r: String)
    ensures
        r@ == output_or_default(o),
{
    match o {
        Some(s) => s,
        None => {
            proof { reveal_strlit("."); }
            String::from_str(".")
        },
    }
}

/// The first position at which `exist` is false.
fn first_missing(exist: &Vec<bool>) -> (r: Option<usize>)
    ensures
        match r {
            Some(i) => first_missing_at(exist@, i as int),
            None => forall|j: int| 0 <= j < exist.len() ==> #[trigger] exist@[j],
        },
{
    let mut i: usize = 0;
    while i < exist.len()
        invariant
            i <= exist.len(),
            forall|j: int| 0 <= j < i ==> #[trigger] exist@[j],
        decreases exist.len() - i,
    {
        if !exist[i] {
            return Some(i);
        }
        i = i + 1;
    }
    None
}

impl LJSpeech {
    /// The index that the next record of `split` gets.
    pub open spec fn counter(&self, split: Split) -> nat {
        match split {
            Split::Dev => self.index_dev as nat,
            Split::Train => self.index_train as nat,
            Split::Test => self.index_test as nat,
            Split::Validated => self.index_validated as nat,
        }
    }

    /// The configuration, apart from the counters.
    pub open spec fn settings(&self) -> (Seq<Seq<char>>, Seq<char>, Seq<Split>) {
        (
            self.abs_paths@.map_values(|p: String| p@),
            self.output_location@,
            enabled_spec(self.dev, self.train, self.test, self.validated),
        )
    }

    /// Checks the configuration and sets every counter to 1. Splits default to
    /// dev and train enabled, the output location to `.`. `output_is_dir` says
    /// whether the output location is an existing directory, `roots_exist[i]`
    /// whether `abs_paths[i]` exists.
    pub fn new(
        abs_paths: Vec<String>,
        output_location: Option<String>,
        dev: Option<bool>,
        train: Option<bool>,
        test: Option<bool>,
        validated: Option<bool>,
        output_is_dir: bool,
        roots_exist: &Vec<bool>,
    ) -> (r: Result<LJSpeech, LJSpeechError>)
        requires
            roots_exist.len() == abs_paths.len(),
        ensures
            ({
                let d = option_or(dev, true);
                let t = option_or(train, true);
                let te = option_or(test, false);
                let v = option_or(validated, false);
                let any = d || t || te || v;
                let roots_ok = forall|i: int| 0 <= i < roots_exist.len() ==> #[trigger] roots_exist@[i];
                &&& !any ==> r is Err && r->Err_0 is OtherError
                &&& any && !output_is_dir ==> r is Err && r->Err_0 is DirError
                    && r->Err_0->DirError_0@ == output_or_default(output_location)
                &&& any && output_is_dir && !roots_ok ==> r is Err && r->Err_0 is FileNotFoundError
                    && exists|i: int| #[trigger] first_missing_at(roots_exist@, i)
                        && r->Err_0->FileNotFoundError_0@ == abs_paths@[i]@
                &&& any && output_is_dir && roots_ok ==> r is Ok
                    && r->Ok_0.settings() == (
                        abs_paths@.map_values(|p: String| p@),
                        output_or_default(output_location),
                        enabled_spec(d, t, te, v),
                    )
                    && r->Ok_0.abs_paths@ == abs_paths@
                    && r->Ok_0.dev == d && r->Ok_0.train == t && r->Ok_0.test == te && r->Ok_0.validated == v
                    && forall|s: Split| #[trigger] r->Ok_0.counter(s) == 1
            }),
    {
        let dev = match dev { Some(b) => b, None => true };
        let train = match train { Some(b) => b, None => true };
        let test = match test { Some(b) => b, None => false };
        let validated = match validated { Some(b) => b, None => false };
        let output_location = output_location_or_default(output_location);
        if !(dev || train || test || validated) {
            return Err(LJSpeechError::OtherError(String::from_str("at least one of dev, train, test or validated must be enabled")));
        }
        if !output_is_dir {
            return Err(LJSpeechError::DirError(output_location));
        }
        match first_missing(roots_exist) {
            Some(i) => {
                let p = abs_paths[i].clone();
                return Err(LJSpeechError::FileNotFoundError(p));
            },
            None => {},
        }
        Ok(LJSpeech {
            abs_paths,
            dev,
            train,
            test,
            validated,
            output_location,
            index_dev: 1,
            index_train: 1,
            index_test: 1,
            index_validated: 1,
        })
    }

    /// Sets every split's counter to `first`, the index the next record of
    /// each split gets (1 after construction; 0 where the first should be 0).
    pub fn set_first_index(&mut self, first: u64)
        ensures
            forall|s: Split| #[trigger] final(self).counter(s) == first as nat,
            final(self).settings() == old(self).settings(),
            final(self).abs_paths == old(self).abs_paths,
            final(self).output_location == old(self).output_location,
    {
        self.index_dev = first;
        self.index_train = first;
        self.index_test = first;
        self.index_validated = first;
    }

    /// The enabled splits, in the order dev, train, test, validated.
    pub fn enabled_splits(&self) -> (r: Vec<Split>)
        ensures
            r@ == enabled_spec(self.dev, self.train, self.test, self.validated),
    {
        let mut r: Vec<Split> = Vec::new();
        if self.dev { r.push(Split::Dev); }
        if self.train { r.push(Split::Train); }
        if self.test { r.push(Split::Test); }
        if self.validated { r.push(Split::Validated); }
        assert(r@ =~= enabled_spec(self.dev, self.train, self.test, self.validated));
        r
    }

    /// The index that the next record of `split` gets.
    pub fn next_index(&self, split: Split) -> (r: u64)
        ensures
            r as nat == self.counter(split),
    {
        match split {
            Split::Dev => self.index_dev,
            Split::Train => self.index_train,
            Split::Test => self.index_test,
            Split::Validated => self.index_validated,
        }
    }

    fn set_index(&mut self, split: Split, v: u64)
        ensures
            final(self).counter(split) == v as nat,
            forall|s: Split| s != split ==> #[trigger] final(self).counter(s) == old(self).counter(s),
            final(self).settings() == old(self).settings(),
            final(self).abs_paths == old(self).abs_paths,
            final(self).output_location == old(self).output_location,
    {
        match split {
            Split::Dev => self.index_dev = v,
            Split::Train => self.index_train = v,
            Split::Test => self.index_test = v,
            Split::Validated => self.index_validated = v,
        }
    }

    /// The directory that the clips of `split` are copied to.
    pub fn clips_dir(&self, split: Split) -> (r: String)
        ensures
            r@ == joined(self.output_location@, split.name_spec() + seq!['_', 'c', 'l', 'i', 'p', 's']),
    {
        proof { reveal_strlit("_clips"); }
        let name = String::from_str(split.name()).concat("_clips");
        join_path(self.output_location.as_str(), name.as_str())
    }

    /// The manifest of `split` in the corpus root `root`.
    pub fn manifest_path(root: &str, split: Split) -> (r: String)
        ensures
            r@ == joined(root@, split.name_spec() + seq!['.', 't', 's', 'v']),
    {
        proof { reveal_strlit(".tsv"); }
        let name = String::from_str(split.name()).concat(".tsv");
        join_path(root, name.as_str())
    }

    /// The metadata file of `split`.
    pub fn metadata_path(&self, split: Split) -> (r: String)
        ensures
            r@ == joined(self.output_location@, split.name_spec() + seq!['.', 't', 'x', 't']),
    {
        proof { reveal_strlit(".txt"); }
        let name = String::from_str(split.name()).concat(".txt");
        join_path(self.output_location.as_str(), name.as_str())
    }

    /// Takes the split's next index for one record of `root` and returns its
    /// entry. A caller copies the clip after this step, so a copy that fails
    /// leaves the index used and the counter one past it: the split stops
    /// there and later records keep their indices free.
    pub fn next_entry(&mut self, root: &str, split: Split, rec: &ManifestRecord) -> (r: Entry)
        requires
            old(self).counter(split) < u64::MAX,
        ensures
            r.view() == entry_of(old(self).output_location@, root@, split, old(self).counter(split), rec.view()),
            final(self).counter(split) == old(self).counter(split) + 1,
            forall|s: Split| s != split ==> #[trigger] final(self).counter(s) == old(self).counter(s),
            final(self).settings() == old(self).settings(),
            final(self).abs_paths == old(self).abs_paths,
            final(self).output_location == old(self).output_location,
    {
        let i = self.next_index(split);
        let e = self.entry_for(root, split, i, rec);
        self.set_index(split, i + 1);
        e
    }

    /// Turns the records of `root`'s manifest for `split` into entries, in
    /// manifest order, giving each the split's next index: `next_entry` on
    /// each record in turn.
    pub fn materialize(&mut self, root: &str, split: Split, records: &Vec<ManifestRecord>) -> (r: Vec<Entry>)
        requires
            old(self).counter(split) + records.len() <= u64::MAX,
        ensures
            r.len() == records.len(),
            r@.map_values(|e: Entry| e.view()) == batch(
                old(self).output_location@,
                root@,
                split,
                old(self).counter(split),
                records@.map_values(|x: ManifestRecord| x.view()),
            ),
            final(self).counter(split) == old(self).counter(split) + records.len(),
            forall|s: Split| s != split ==> #[trigger] final(self).counter(s) == old(self).counter(s),
            final(self).settings() == old(self).settings(),
            final(self).abs_paths == old(self).abs_paths,
            final(self).output_location == old(self).output_location,
    {
        let ghost start = self.counter(split);
        let ghost recs = records@.map_values(|x: ManifestRecord| x.view());
        let mut r: Vec<Entry> = Vec::new();
        let mut k: usize = 0;
        while k < records.len()
            invariant
                k <= records.len(),
                r.len() == k,
                start + records.len() <= u64::MAX,
                self.counter(split) == start + k,
                forall|s: Split| s != split ==> #[trigger] self.counter(s) == old(self).counter(s),
                self.settings() == old(self).settings(),
                self.abs_paths == old(self).abs_paths,
                self.output_location == old(self).output_location,
                recs == records@.map_values(|x: ManifestRecord| x.view()),
                forall|j: int| 0 <= j < k ==> #[trigger] r@[j].view() == entry_of(
                    self.output_location@,
                    root@,
                    split,
                    start + j as nat,
                    recs[j],
                ),
            decreases records.len() - k,
        {
            let e = self.next_entry(root, split, &records[k]);
            r.push(e);
            k = k + 1;
        }
        assert(r@.map_values(|e: Entry| e.view()) =~= batch(self.output_location@, root@, split, start, recs));
        r
    }

    /// The entry for one record given its index.
    fn entry_for(&self, root: &str, split: Split, i: u64, rec: &ManifestRecord) -> (r: Entry)
        ensures
            r.view() == entry_of(self.output_location@, root@, split, i as nat, rec.view()),
    {
        proof {
            reveal_strlit("clips");
            reveal_strlit("_");
            reveal_strlit(".");
            reveal_strlit("|");
        }
        let stem = String::from_str(split.name()).concat("_").concat(decimal_string(i).as_str());
        let clips = join_path(root, "clips");
        let source = join_path(clips.as_str(), rec.path.as_str());
        let file = stem.clone().concat(".").concat(extension(rec.path.as_str()).as_str());
        let dir = self.clips_dir(split);
        let dest = join_path(dir.as_str(), file.as_str());
        let line = stem.concat("|").concat(sanitize(rec.transcript.as_str()).as_str());
        assert(stem@ =~= stem_of(split, i as nat));
        Entry { index: i, source, dest, line }
    }
}

/// Distinct indices give distinct stems within a split.
pub proof fn lemma_stem_injective(split: Split, i: nat, j: nat)
    requires
        i != j,
    ensures
        stem_of(split, i) != stem_of(split, j),
{
    let p = split.name_spec() + seq!['_'];
    if stem_of(split, i) == stem_of(split, j) {
        assert(stem_of(split, i).subrange(p.len() as int, stem_of(split, i).len() as int) =~= decimal(i));
        assert(stem_of(split, j).subrange(p.len() as int, stem_of(split, j).len() as int) =~= decimal(j));
        lemma_decimal_injective(i, j);
    }
}

/// Within one split, the records of two roots processed one after the other
/// (the second starting where the first left the counter) get pairwise
/// distinct indices and stems.
pub proof fn lemma_two_roots_unique(
    out: Seq<char>,
    root_a: Seq<char>,
    root_b: Seq<char>,
    split: Split,
    start: nat,
    recs_a: Seq<(Seq<char>, Seq<char>)>,
    recs_b: Seq<(Seq<char>, Seq<char>)>,
)
    ensures
        ({
            let all = batch(out, root_a, split, start, recs_a) + batch(out, root_b, split, start + recs_a.len(), recs_b);
            forall|x: int, y: int| 0 <= x < y < all.len() ==> all[x].0 != all[y].0
                && stem_of(split, all[x].0) != stem_of(split, all[y].0)
        }),
{
    let all = batch(out, root_a, split, start, recs_a) + batch(out, root_b, split, start + recs_a.len(), recs_b);
    assert forall|x: int, y: int| 0 <= x < y < all.len() implies all[x].0 != all[y].0
        && stem_of(split, all[x].0) != stem_of(split, all[y].0) by {
        assert(all[x].0 == start + x);
        assert(all[y].0 == start + y);
        lemma_stem_injective(split, all[x].0, all[y].0);
    }
}

/// With the counter fresh, the records of a manifest get the stems
/// `<split>_1` to `<split>_N`, in manifest order, one line each.
pub proof fn lemma_fresh_stems(
    out: Seq<char>,
    root: Seq<char>,
    split: Split,
    recs: Seq<(Seq<char>, Seq<char>)>,
)
    ensures
        batch(out, root, split, 1, recs).len() == recs.len(),
        forall|k: int| 0 <= k < recs.len() ==> #[trigger] batch(out, root, split, 1, recs)[k].3
            == stem_of(split, (k + 1) as nat).push('|') + sanitized(recs[k].1),
{
}

} // verus!
