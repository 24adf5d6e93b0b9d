use vstd::hash_map::StringHashMap;
use vstd::prelude::*;

use crate::filesys::File;
use crate::models::{Deployment, FileRule};
use crate::time::Timestamp;

verus! {

/// What a scan saw of a file. Instants are Unix nanoseconds.
#[derive(Debug)]
pub struct Observation {
    pub file: File,
    pub timestamp: i128,
    pub size: u64,
    pub mtime: Timestamp,
    pub deployment_id: String,
    pub file_rule_id: String,
}

pub struct ObservationView {
    pub file: Seq<char>,
    pub timestamp: i128,
    pub size: u64,
    pub mtime: Timestamp,
    pub deployment_id: Seq<char>,
    pub file_rule_id: Seq<char>,
}

impl View for Observation {
    type V = ObservationView;

    open spec fn view(&self) -> ObservationView {
        ObservationView {
            file: self.file.path@,
            timestamp: self.timestamp,
            size: self.size,
            mtime: self.mtime,
            deployment_id: self.deployment_id@,
            file_rule_id: self.file_rule_id@,
        }
    }
}

impl Observation {
    /// Same size and modification time.
    pub fn equal_metadata(&self, other: &Observation) -> (r: bool)
        ensures
            r == (self.size == other.size && self.mtime == other.mtime),
    {
        self.size == other.size && self.mtime == other.mtime
    }

    /// A copy with the same view.
    pub fn duplicate(&self) -> (r: Self)
        ensures
            r@ == self@,
    {
        Observation {
            file: self.file.duplicate(),
            timestamp: self.timestamp,
            size: self.size,
            mtime: self.mtime,
            deployment_id: self.deployment_id.clone(),
            file_rule_id: self.file_rule_id.clone(),
        }
    }
}

/// A file that is a candidate for upload, with the single observation taken when it
/// was discovered.
#[derive(Debug)]
pub struct Candidate {
    pub file: File,
    pub first_obs: Observation,
}

/// A file found stable enough for upload. `mtime_aliases` holds other modification
/// times under which the same content was seen.
#[derive(Debug)]
pub struct StableFile {
    pub file: File,
    pub size: u64,
    pub digest: String,
    pub mtime: Timestamp,
    pub mtime_aliases: Vec<Timestamp>,
    pub first_observed_at: i128,
    pub last_observed_at: i128,
    pub deployment_id: String,
    pub file_rule_id: String,
}

pub struct StableFileView {
    pub file: Seq<char>,
    pub size: u64,
    pub digest: Seq<char>,
    pub mtime: Timestamp,
    pub mtime_aliases: Seq<Timestamp>,
    pub first_observed_at: i128,
    pub last_observed_at: i128,
    pub deployment_id: Seq<char>,
    pub file_rule_id: Seq<char>,
}

impl View for StableFile {
    type V = StableFileView;

    open spec fn view(&self) -> StableFileView {
        StableFileView {
            file: self.file.path@,
            size: self.size,
            digest: self.digest@,
            mtime: self.mtime,
            mtime_aliases: self.mtime_aliases@,
            first_observed_at: self.first_observed_at,
            last_observed_at: self.last_observed_at,
            deployment_id: self.deployment_id@,
            file_rule_id: self.file_rule_id@,
        }
    }
}

/// `m` is the file's modification time or one of its aliases.
pub open spec fn spec_has_mtime(sf: StableFileView, m: Timestamp) -> bool {
    sf.mtime == m || sf.mtime_aliases.contains(m)
}

/// No alias repeats the modification time or another alias.
pub open spec fn aliases_distinct(sf: StableFileView) -> bool {
    &&& !sf.mtime_aliases.contains(sf.mtime)
    &&& sf.mtime_aliases.no_duplicates()
}

/// The file's record after seeing it unchanged under modification time `m`.
pub open spec fn spec_with_alias(sf: StableFileView, m: Timestamp) -> StableFileView {
    if spec_has_mtime(sf, m) {
        sf
    } else {
        StableFileView { mtime_aliases: sf.mtime_aliases.push(m), ..sf }
    }
}

fn contains_mtime(v: &Vec<Timestamp>, m: Timestamp) -> (r: bool)
    ensures
        r == v@.contains(m),
{
    let mut i: usize = 0;
    while i < v.len()
        invariant
            i <= v@.len(),
            forall|j: int| 0 <= j < i ==> v@[j] != m,
        decreases v@.len() - i,
    {
        if v[i] == m {
            assert(v@[i as int] == m);
            return true;
        }
        i = i + 1;
    }
    false
}

impl StableFile {
    /// The observation's modification time is the file's or one of its aliases.
    pub fn has_mtime(&self, other: &Observation) -> (r: bool)
        ensures
            r == spec_has_mtime(self@, other.mtime),
    {
        contains_mtime(&self.mtime_aliases, other.mtime) || self.mtime == other.mtime
    }

    /// Same size, and a known modification time.
    pub fn equal_metadata(&self, other: &Observation) -> (r: bool)
        ensures
            r == (self.size == other.size && spec_has_mtime(self@, other.mtime)),
    {
        self.size == other.size && self.has_mtime(other)
    }

    /// Record `mtime` as an alias unless it is already known.
    pub fn push_mtime_alias(&mut self, mtime: Timestamp)
        ensures
            final(self)@ == spec_with_alias(old(self)@, mtime),
    {
        if self.mtime == mtime || contains_mtime(&self.mtime_aliases, mtime) {
            return;
        }
        self.mtime_aliases.push(mtime);
    }

    /// A copy with the same view.
    pub fn duplicate(&self) -> (r: Self)
        ensures
            r@ == self@,
    {
        StableFile {
            file: self.file.duplicate(),
            size: self.size,
            digest: self.digest.clone(),
            mtime: self.mtime,
            mtime_aliases: self.mtime_aliases.clone(),
            first_observed_at: self.first_observed_at,
            last_observed_at: self.last_observed_at,
            deployment_id: self.deployment_id.clone(),
            file_rule_id: self.file_rule_id.clone(),
        }
    }
}

/// Recording a modification time as an alias makes it known, changes nothing when it
/// already was, keeps every other field, and keeps the aliases free of repeats.
pub proof fn lemma_alias_known_and_idempotent(sf: StableFileView, m: Timestamp)
    ensures
        spec_has_mtime(spec_with_alias(sf, m), m),
        spec_with_alias(spec_with_alias(sf, m), m) == spec_with_alias(sf, m),
        forall|x: Timestamp| spec_has_mtime(sf, x) ==> spec_has_mtime(spec_with_alias(sf, m), x),
        aliases_distinct(sf) ==> aliases_distinct(spec_with_alias(sf, m)),
{
    let r = spec_with_alias(sf, m);
    if !spec_has_mtime(sf, m) {
        assert(r.mtime_aliases[r.mtime_aliases.len() - 1] == m);
        assert forall|x: Timestamp| spec_has_mtime(sf, x) implies spec_has_mtime(r, x) by {
            if sf.mtime_aliases.contains(x) {
                let j = choose|j: int| 0 <= j < sf.mtime_aliases.len() && sf.mtime_aliases[j] == x;
                assert(r.mtime_aliases[j] == x);
            }
        }
        if aliases_distinct(sf) {
            assert(!r.mtime_aliases.contains(r.mtime)) by {
                if r.mtime_aliases.contains(r.mtime) {
                    let j = choose|j: int| 0 <= j < r.mtime_aliases.len() && r.mtime_aliases[j] == r.mtime;
                    if j < sf.mtime_aliases.len() {
                        assert(sf.mtime_aliases[j] == sf.mtime);
                    }
                }
            }
            assert forall|i: int, j: int|
                0 <= i < r.mtime_aliases.len() && 0 <= j < r.mtime_aliases.len() && i != j
                    implies r.mtime_aliases[i] != r.mtime_aliases[j] by {
                if i == sf.mtime_aliases.len() as int {
                    assert(sf.mtime_aliases[j] == r.mtime_aliases[j]);
                } else if j == sf.mtime_aliases.len() as int {
                    assert(sf.mtime_aliases[i] == r.mtime_aliases[i]);
                }
            }
        }
    }
}

/// The deployment and rule a rule state scans for.
#[derive(Debug)]
pub struct Config {
    pub deployment: Deployment,
    pub rule: FileRule,
}

/// The views of a file's ledger history, oldest first.
pub open spec fn history_views(h: Seq<StableFile>) -> Seq<StableFileView> {
    h.map_values(|sf: StableFile| sf@)
}

/// The scanning state of one file rule: files that existed before the rule was
/// deployed, files being watched for stability, and the stable-file history (ledger)
/// of each path.
pub struct RuleState {
    cfg: Config,
    preexisting: StringHashMap<Observation>,
    candidates: StringHashMap<Candidate>,
    ledger: StringHashMap<Vec<StableFile>>,
}

pub struct RuleStateView {
    pub preexisting: Map<Seq<char>, ObservationView>,
    pub candidates: Set<Seq<char>>,
    pub ledger: Map<Seq<char>, Seq<StableFileView>>,
}

impl View for RuleState {
    type V = RuleStateView;

    closed spec fn view(&self) -> RuleStateView {
        RuleStateView {
            preexisting: self.preexisting@.map_values(|o: Observation| o@),
            candidates: self.candidates@.dom(),
            ledger: self.ledger@.map_values(|h: Vec<StableFile>| history_views(h@)),
        }
    }
}

/// A copy of a ledger history with the same views.
fn duplicate_history(h: &Vec<StableFile>) -> (r: Vec<StableFile>)
    ensures
        history_views(r@) == history_views(h@),
{
    let mut out: Vec<StableFile> = Vec::new();
    let mut i: usize = 0;
    while i < h.len()
        invariant
            i <= h@.len(),
            out@.len() == i,
            forall|j: int| 0 <= j < i ==> (#[trigger] out@[j])@ == h@[j]@,
        decreases h@.len() - i,
    {
        out.push(h[i].duplicate());
        i = i + 1;
    }
    assert(history_views(out@) =~= history_views(h@));
    out
}

/// The paths of a list of files.
pub open spec fn path_set(files: Seq<File>) -> Set<Seq<char>> {
    Set::new(|p: Seq<char>| exists|i: int| 0 <= i < files.len() && (#[trigger] files[i]).path@ == p)
}

impl RuleState {
    /// The empty state of a newly deployed rule.
    pub fn new(cfg: Config) -> (r: Self)
        ensures
            r@.preexisting.is_empty(),
            r@.candidates.is_empty(),
            r@.ledger.is_empty(),
            r.config() == cfg,
    {
        let r = RuleState {
            cfg,
            preexisting: StringHashMap::new(),
            candidates: StringHashMap::new(),
            ledger: StringHashMap::new(),
        };
        proof {
            assert(r@.preexisting =~= Map::empty());
            assert(r@.ledger =~= Map::empty());
        }
        r
    }

    /// The deployment and rule this state was made for.
    pub closed spec fn config(&self) -> Config {
        self.cfg
    }

    /// The rule this state scans for.
    pub fn rule(&self) -> (r: &FileRule)
        ensures
            *r == self.config().rule,
    {
        &self.cfg.rule
    }

    /// The number of paths with a ledger history.
    pub fn ledger_count(&self) -> (r: usize)
        ensures
            r == self@.ledger.len(),
    {
        proof {
            assert(self@.ledger.dom() =~= self.ledger@.dom());
        }
        self.ledger.len()
    }

    pub fn has_candidates(&self) -> (r: bool)
        ensures
            r == !self@.candidates.is_empty(),
    {
        proof {
            assert(self.candidates@.is_empty() == self.candidates@.dom().is_empty()) by {
                if !self.candidates@.dom().is_empty() {
                    let k = self.candidates@.dom().choose();
                    assert(self.candidates@.dom().contains(k));
                }
            }
        }
        !self.candidates.is_empty()
    }

    pub fn is_candidate(&self, file: &File) -> (r: bool)
        ensures
            r == self@.candidates.contains(file.path@),
    {
        self.candidates.contains_key(file.path.as_str())
    }

    /// The observation matches, in size and modification time, what was seen of the
    /// same path before the rule was deployed.
    pub fn is_preexisting(&self, obs: &Observation) -> (r: bool)
        ensures
            r == (self@.preexisting.contains_key(obs.file.path@) && self@.preexisting[obs.file.path@].size
                == obs.size && self@.preexisting[obs.file.path@].mtime == obs.mtime),
    {
        match self.preexisting.get(obs.file.path.as_str()) {
            Some(pre) => pre.equal_metadata(obs),
            None => false,
        }
    }

    /// The observation matches, in size and a known modification time, the latest
    /// ledger entry of its path.
    pub fn is_latest_ledger_entry(&self, obs: &Observation) -> (r: bool)
        ensures
            r == (self@.ledger.contains_key(obs.file.path@) && self@.ledger[obs.file.path@].len() > 0
                && self@.ledger[obs.file.path@].last().size == obs.size && spec_has_mtime(
                self@.ledger[obs.file.path@].last(),
                obs.mtime,
            )),
    {
        match self.ledger.get(obs.file.path.as_str()) {
            Some(entries) => {
                let n = entries.len();
                if n == 0 {
                    false
                } else {
                    entries[n - 1].equal_metadata(obs)
                }
            },
            None => false,
        }
    }

    /// Record what was seen of a path before the rule was deployed.
    pub fn insert_preexisting(&mut self, obs: Observation)
        ensures
            final(self)@.preexisting == old(self)@.preexisting.insert(obs.file.path@, obs@),
            final(self)@.candidates == old(self)@.candidates,
            final(self)@.ledger == old(self)@.ledger,
            final(self).config() == old(self).config(),
    {
        let key = obs.file.path.clone();
        let ghost v = obs@;
        self.preexisting.insert(key, obs);
        proof {
            assert(self@.preexisting =~= old(self)@.preexisting.insert(key@, v));
        }
    }

    /// Start watching a candidate.
    pub fn insert_candidate(&mut self, cand: Candidate)
        ensures
            final(self)@.candidates == old(self)@.candidates.insert(cand.file.path@),
            final(self)@.preexisting == old(self)@.preexisting,
            final(self)@.ledger == old(self)@.ledger,
            final(self).config() == old(self).config(),
    {
        let key = cand.file.path.clone();
        self.candidates.insert(key, cand);
        proof {
            assert(self@.candidates =~= old(self)@.candidates.insert(key@));
        }
    }

    /// Stop watching a candidate.
    pub fn remove_candidate(&mut self, file: &File)
        ensures
            final(self)@.candidates == old(self)@.candidates.remove(file.path@),
            final(self)@.preexisting == old(self)@.preexisting,
            final(self)@.ledger == old(self)@.ledger,
            final(self).config() == old(self).config(),
    {
        self.candidates.remove(file.path.as_str());
        proof {
            assert(self@.candidates =~= old(self)@.candidates.remove(file.path@));
        }
    }

    /// Append a stable file to the ledger history of its path.
    pub fn push_ledger_entry(&mut self, sf: StableFile)
        ensures
            final(self)@.ledger == old(self)@.ledger.insert(
                sf.file.path@,
                if old(self)@.ledger.contains_key(sf.file.path@) {
                    old(self)@.ledger[sf.file.path@]
                } else {
                    Seq::empty()
                }.push(sf@),
            ),
            final(self)@.preexisting == old(self)@.preexisting,
            final(self)@.candidates == old(self)@.candidates,
            final(self).config() == old(self).config(),
    {
        let key = sf.file.path.clone();
        let ghost v = sf@;
        let ghost old_hist = if old(self)@.ledger.contains_key(key@) {
            old(self)@.ledger[key@]
        } else {
            Seq::<StableFileView>::empty()
        };
        let mut history = match self.ledger.get(key.as_str()) {
            Some(h) => {
                let c = duplicate_history(h);
                proof {
                    assert(old(self)@.ledger.contains_key(key@));
                    assert(old(self)@.ledger[key@] == history_views(h@));
                }
                c
            },
            None => {
                let c: Vec<StableFile> = Vec::new();
                proof {
                    assert(!old(self)@.ledger.contains_key(key@));
                    assert(history_views(c@) =~= old_hist);
                }
                c
            },
        };
        let ghost before = history@;
        history.push(sf);
        proof {
            assert(history_views(history@) =~= history_views(before).push(v));
        }
        let ghost hv = history_views(history@);
        self.ledger.insert(key, history);
        proof {
            assert(hv == old_hist.push(v));
            assert(self@.ledger =~= old(self)@.ledger.insert(key@, old_hist.push(v)));
        }
    }

    /// Record `mtime` as an alias of the latest ledger entry of `file`; false when the
    /// path has no ledger entry.
    pub fn push_latest_mtime_alias(&mut self, file: &File, mtime: Timestamp) -> (r: bool)
        ensures
            r == (old(self)@.ledger.contains_key(file.path@) && old(self)@.ledger[file.path@].len()
                > 0),
            r ==> final(self)@.ledger == old(self)@.ledger.insert(
                file.path@,
                old(self)@.ledger[file.path@].drop_last().push(
                    spec_with_alias(old(self)@.ledger[file.path@].last(), mtime),
                ),
            ),
            !r ==> final(self)@.ledger == old(self)@.ledger,
            final(self)@.preexisting == old(self)@.preexisting,
            final(self)@.candidates == old(self)@.candidates,
            final(self).config() == old(self).config(),
    {
        let mut history = match self.ledger.get(file.path.as_str()) {
            Some(h) => duplicate_history(h),
            None => {
                return false;
            },
        };
        let n = history.len();
        if n == 0 {
            return false;
        }
        let ghost before = history@;
        let mut last = history.pop().unwrap();
        last.push_mtime_alias(mtime);
        let ghost lv = last@;
        history.push(last);
        proof {
            assert(history_views(history@) =~= history_views(before).drop_last().push(lv));
        }
        self.ledger.insert(file.path.clone(), history);
        proof {
            assert(self@.ledger =~= old(self)@.ledger.insert(
                file.path@,
                old(self)@.ledger[file.path@].drop_last().push(
                    spec_with_alias(old(self)@.ledger[file.path@].last(), mtime),
                ),
            ));
        }
        true
    }

    /// The number of ledger entries recorded for `file`.
    pub fn ledger_history_len(&self, file: &File) -> (r: usize)
        ensures
            r == if self@.ledger.contains_key(file.path@) {
                self@.ledger[file.path@].len()
            } else {
                0
            },
    {
        match self.ledger.get(file.path.as_str()) {
            Some(h) => h.len(),
            None => 0,
        }
    }

    /// Once the ledger holds at least `threshold` paths, drop the histories of the
    /// paths absent from `retain` (this pass's glob set); below it, keep everything.
    pub fn prune_ledger(&mut self, retain: &[File], threshold: usize)
        ensures
            old(self)@.ledger.len() < threshold ==> final(self)@.ledger == old(self)@.ledger,
            old(self)@.ledger.len() >= threshold ==> final(self)@.ledger == old(self)@.ledger.restrict(
                path_set(retain@),
            ),
            final(self)@.preexisting == old(self)@.preexisting,
            final(self)@.candidates == old(self)@.candidates,
            final(self).config() == old(self).config(),
    {
        proof {
            assert(self@.ledger.dom() =~= self.ledger@.dom());
        }
        if self.ledger.len() < threshold {
            return;
        }
        let ghost old_ledger = self@.ledger;
        let mut kept: StringHashMap<Vec<StableFile>> = StringHashMap::new();
        let mut i: usize = 0;
        while i < retain.len()
            invariant
                i <= retain@.len(),
                old_ledger == self@.ledger,
                kept@.map_values(|h: Vec<StableFile>| history_views(h@)) == old_ledger.restrict(
                    path_set(retain@.take(i as int)),
                ),
            decreases retain@.len() - i,
        {
            let path = &retain[i].path;
            proof {
                assert(path_set(retain@.take(i as int + 1)) =~= path_set(retain@.take(i as int)).insert(
                    path@,
                )) by {
                    assert forall|p: Seq<char>|
                        path_set(retain@.take(i as int + 1)).contains(p) implies path_set(
                        retain@.take(i as int),
                    ).insert(path@).contains(p) by {
                        let s1 = retain@.take(i as int + 1);
                        let j = choose|j: int| 0 <= j < s1.len() && (#[trigger] s1[j]).path@ == p;
                        if j < i {
                            assert(retain@.take(i as int)[j] == retain@.take(i as int + 1)[j]);
                        }
                    }
                    assert forall|p: Seq<char>|
                        path_set(retain@.take(i as int)).insert(path@).contains(p) implies path_set(
                        retain@.take(i as int + 1),
                    ).contains(p) by {
                        if p == path@ {
                            assert(retain@.take(i as int + 1)[i as int] == retain@[i as int]);
                        } else {
                            let s0 = retain@.take(i as int);
                            let j = choose|j: int| 0 <= j < s0.len() && (#[trigger] s0[j]).path@ == p;
                            assert(retain@.take(i as int + 1)[j] == retain@.take(i as int)[j]);
                        }
                    }
                }
            }
            match self.ledger.get(path.as_str()) {
                Some(h) => {
                    let copy = duplicate_history(h);
                    proof {
                        assert(old_ledger.contains_key(path@));
                        assert(old_ledger[path@] == history_views(copy@));
                    }
                    let ghost before = kept@;
                    let ghost cv = history_views(copy@);
                    kept.insert(path.clone(), copy);
                    proof {
                        let f = |h: Vec<StableFile>| history_views(h@);
                        let r0 = old_ledger.restrict(path_set(retain@.take(i as int)));
                        let r1 = old_ledger.restrict(path_set(retain@.take(i as int + 1)));
                        assert(before.map_values(f) == r0);
                        assert(kept@.map_values(f) =~= before.map_values(f).insert(path@, cv));
                        assert(r1 =~= r0.insert(path@, old_ledger[path@]));
                        assert(kept@.map_values(f) =~= r1);
                    }
                },
                None => {
                    proof {
                        assert(!old_ledger.contains_key(path@));
                        assert(kept@.map_values(|h: Vec<StableFile>| history_views(h@))
                            =~= old_ledger.restrict(path_set(retain@.take(i as int + 1))));
                    }
                },
            }
            i = i + 1;
        }
        proof {
            assert(retain@.take(retain@.len() as int) =~= retain@);
        }
        self.ledger = kept;
    }
}

} // verus!
