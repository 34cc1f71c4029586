use vstd::prelude::*;
use crate::configs::{Config, SessionSortOrderConfig};
use crate::error::TmsError;
use crate::order::strictly_sorted;
use crate::order::{lemma_lex_irreflexive, lemma_lex_transitive, lex_less, rows, text_equal};
use crate::paths::{
    base_name, base_name_spec, components, join_components, join_last, last_components,
    parent_dir, parent_spec, split_components,
};
use crate::repos::RepoProvider;
use crate::table::SortedTable;
use crate::text::{chars_of, first_occurrences, first_of_each, string_of, texts};

verus! {

/// What a session is rooted at.
#[derive(Debug, Clone, PartialEq, Eq)]
pub enum SessionType {
    /// A repository found by discovery.
    Git(Box<RepoProvider>),
    /// A directory that the user has bookmarked.
    Bookmark(String),
    /// A clone of a repository of a remote catalogue.
    GitHub { path: String, repo_name: String },
}

/// A project that a multiplexer session can be opened for.
#[derive(Debug, Clone, PartialEq, Eq)]
pub struct Session {
    pub name: String,
    pub session_type: SessionType,
}

/// `name` with every dot replaced by an underscore: the multiplexer reads a dot in a
/// session's name as a separator.
pub open spec fn session_name_spec(name: Seq<char>) -> Seq<char> {
    Seq::new(
        name.len(),
        |i: int|
            if name[i] == '.' {
                '_'
            } else {
                name[i]
            },
    )
}

/// The directory that a session of this kind is rooted at.
pub open spec fn root_of(session_type: SessionType) -> Seq<char> {
    match session_type {
        SessionType::Git(repo) => if repo.is_bare_spec() {
            repo.path_spec()
        } else {
            match parent_spec(repo.path_spec()) {
                Some(parent) => parent,
                None => repo.path_spec(),
            }
        },
        SessionType::Bookmark(path) => path@,
        SessionType::GitHub { path, .. } => path@,
    }
}

impl Session {
    pub fn new(name: String, session_type: SessionType) -> (session: Session)
        ensures
            session.name == name,
            session.session_type == session_type,
    {
        Session { name, session_type }
    }

    /// The directory that the session is rooted at: for a repository with checked-out
    /// files the directory that holds its repository directory (that directory itself where
    /// nothing lies above it), for a bare repository its own directory, otherwise the
    /// directory that was bookmarked or cloned into.
    pub open spec fn path_spec(&self) -> Seq<char> {
        root_of(self.session_type)
    }

    pub fn path(&self) -> (path: String)
        ensures
            path@ == self.path_spec(),
    {
        match &self.session_type {
            SessionType::Git(repo) => {
                if repo.is_bare() {
                    repo.path().to_string()
                } else {
                    match parent_dir(repo.path()) {
                        Some(parent) => parent,
                        None => repo.path().to_string(),
                    }
                }
            },
            SessionType::Bookmark(path) => path.clone(),
            SessionType::GitHub { path, .. } => path.clone(),
        }
    }

    /// The name under which the multiplexer knows the session.
    pub fn session_name(&self) -> (name: String)
        ensures
            name@ == session_name_spec(self.name@),
    {
        let chars = chars_of(self.name.as_str());
        let mut replaced: Vec<char> = Vec::new();
        let mut i: usize = 0;
        while i < chars.len()
            invariant
                i <= chars.len(),
                replaced@ == session_name_spec(chars@).take(i as int),
            decreases chars.len() - i,
        {
            let c = chars[i];
            if c == '.' {
                replaced.push('_');
            } else {
                replaced.push(c);
            }
            assert(replaced@ =~= session_name_spec(chars@).take(i + 1));
            i += 1;
        }
        assert(session_name_spec(chars@).take(chars.len() as int) =~= session_name_spec(chars@));
        string_of(&replaced)
    }

    /// The name under which the picker shows the session: its root directory where full
    /// paths are asked for, its name otherwise.
    pub fn visible_name(&self, display_full_path: Option<bool>) -> (name: String)
        ensures
            name@ == if display_full_path == Some(true) {
                self.path_spec()
            } else {
                self.name@
            },
    {
        match display_full_path {
            Some(true) => self.path(),
            _ => self.name.clone(),
        }
    }

    /// A copy with the same fields.
    pub fn duplicate(&self) -> (copy: Session)
        ensures
            copy == *self,
    {
        let session_type = match &self.session_type {
            SessionType::Git(repo) => SessionType::Git(Box::new(repo.duplicate())),
            SessionType::Bookmark(path) => SessionType::Bookmark(path.clone()),
            SessionType::GitHub { path, repo_name } => SessionType::GitHub {
                path: path.clone(),
                repo_name: repo_name.clone(),
            },
        };
        Session { name: self.name.clone(), session_type }
    }
}

/// The score of the item at position `i`; zero where `scores` has none for it.
pub open spec fn score_at(scores: Seq<u64>, i: int) -> u64 {
    if 0 <= i < scores.len() {
        scores[i]
    } else {
        0
    }
}

/// `order` with the position `i` put behind every position whose score is not less.
pub open spec fn place_by_score(order: Seq<int>, scores: Seq<u64>, i: int) -> Seq<int>
    decreases order.len(),
{
    if order.len() == 0 {
        seq![i]
    } else if score_at(scores, order.last()) >= score_at(scores, i) {
        order.push(i)
    } else {
        place_by_score(order.drop_last(), scores, i).push(order.last())
    }
}

/// The positions `0..count` in the order of falling scores; positions of equal score
/// keep their order.
pub open spec fn rank_order(scores: Seq<u64>, count: nat) -> Seq<int>
    decreases count,
{
    if count == 0 {
        seq![]
    } else {
        place_by_score(rank_order(scores, (count - 1) as nat), scores, count - 1)
    }
}

/// `names` in the order of falling scores, `scores[i]` being the score of `names[i]`;
/// names of equal score keep their order.
pub open spec fn ranked(names: Seq<Seq<char>>, scores: Seq<u64>) -> Seq<Seq<char>> {
    rank_order(scores, names.len()).map_values(|i: int| names[i])
}

/// `order` lists positions by falling score, and among equal scores by rising position.
pub open spec fn falls(order: Seq<int>, scores: Seq<u64>) -> bool {
    forall|a: int, b: int|
        0 <= a < b < order.len() ==> score_at(scores, #[trigger] order[a]) > score_at(
            scores,
            #[trigger] order[b],
        ) || (score_at(scores, order[a]) == score_at(scores, order[b]) && order[a] < order[b])
}

/// `order` holds each of the positions `0..count` once, and nothing else.
pub open spec fn is_arrangement(order: Seq<int>, count: nat) -> bool {
    &&& order.len() == count
    &&& order.no_duplicates()
    &&& forall|k: int| 0 <= k < order.len() ==> 0 <= #[trigger] order[k] < count
}

proof fn lemma_place_general(order: Seq<int>, scores: Seq<u64>, i: int)
    requires
        falls(order, scores),
        order.no_duplicates(),
        forall|k: int| 0 <= k < order.len() ==> 0 <= #[trigger] order[k] < i,
    ensures
        falls(place_by_score(order, scores, i), scores),
        place_by_score(order, scores, i).no_duplicates(),
        place_by_score(order, scores, i).len() == order.len() + 1,
        forall|x: int| #[trigger]
            place_by_score(order, scores, i).contains(x) <==> (x == i || order.contains(x)),
    decreases order.len(),
{
    let placed = place_by_score(order, scores, i);
    if order.len() == 0 {
        assert(placed =~= seq![i]);
        assert forall|x: int| #[trigger] placed.contains(x) <==> (x == i || order.contains(x)) by {
            if x == i {
                assert(placed[0] == i);
            }
        }
    } else if score_at(scores, order.last()) >= score_at(scores, i) {
        assert forall|a: int, b: int| 0 <= a < b < placed.len() implies score_at(
            scores,
            #[trigger] placed[a],
        ) > score_at(scores, #[trigger] placed[b]) || (score_at(scores, placed[a]) == score_at(
            scores,
            placed[b],
        ) && placed[a] < placed[b]) by {
            if b == placed.len() - 1 {
                assert(placed[a] == order[a]);
                if a < order.len() - 1 {
                    assert(score_at(scores, order[a]) > score_at(scores, order[order.len() - 1])
                        || (score_at(scores, order[a]) == score_at(
                        scores,
                        order[order.len() - 1],
                    )));
                }
            } else {
                assert(placed[a] == order[a] && placed[b] == order[b]);
            }
        }
        assert forall|x: int| #[trigger] placed.contains(x) <==> (x == i || order.contains(x)) by {
            if placed.contains(x) {
                let k = choose|k: int| 0 <= k < placed.len() && placed[k] == x;
                if k < order.len() {
                    assert(order[k] == x);
                }
            }
            if order.contains(x) {
                let k = choose|k: int| 0 <= k < order.len() && order[k] == x;
                assert(placed[k] == x);
            }
            if x == i {
                assert(placed[placed.len() - 1] == i);
            }
        }
        assert forall|a: int, b: int| 0 <= a < placed.len() && 0 <= b < placed.len() && a != b implies placed[a]
            != placed[b] by {
            if a < order.len() && b < order.len() {
                assert(order[a] != order[b]);
            }
        }
    } else {
        let init = order.drop_last();
        let last = order.last();
        assert forall|a: int, b: int| 0 <= a < b < init.len() implies score_at(
            scores,
            #[trigger] init[a],
        ) > score_at(scores, #[trigger] init[b]) || (score_at(scores, init[a]) == score_at(
            scores,
            init[b],
        ) && init[a] < init[b]) by {
            assert(init[a] == order[a] && init[b] == order[b]);
        }
        assert(init.no_duplicates()) by {
            assert forall|a: int, b: int| 0 <= a < init.len() && 0 <= b < init.len() && a != b implies init[a]
                != init[b] by {
                assert(order[a] != order[b]);
            }
        }
        assert forall|k: int| 0 <= k < init.len() implies 0 <= #[trigger] init[k] < i by {
            assert(init[k] == order[k]);
        }
        lemma_place_general(init, scores, i);
        let inner = place_by_score(init, scores, i);
        assert(placed == inner.push(last));
        assert forall|x: int| #[trigger] placed.contains(x) <==> (x == i || order.contains(x)) by {
            if placed.contains(x) {
                let k = choose|k: int| 0 <= k < placed.len() && placed[k] == x;
                if k < inner.len() {
                    assert(inner[k] == x);
                    assert(inner.contains(x));
                    if x != i {
                        assert(init.contains(x));
                        let m = choose|m: int| 0 <= m < init.len() && init[m] == x;
                        assert(order[m] == x);
                    }
                } else {
                    assert(order[order.len() - 1] == x);
                }
            }
            if order.contains(x) {
                let k = choose|k: int| 0 <= k < order.len() && order[k] == x;
                if k < init.len() {
                    assert(init[k] == x);
                    assert(init.contains(x));
                    assert(inner.contains(x));
                    let m = choose|m: int| 0 <= m < inner.len() && inner[m] == x;
                    assert(placed[m] == x);
                } else {
                    assert(placed[placed.len() - 1] == x);
                }
            }
            if x == i {
                assert(inner.contains(i));
                let m = choose|m: int| 0 <= m < inner.len() && inner[m] == i;
                assert(placed[m] == i);
            }
        }
        assert forall|a: int, b: int| 0 <= a < b < placed.len() implies score_at(
            scores,
            #[trigger] placed[a],
        ) > score_at(scores, #[trigger] placed[b]) || (score_at(scores, placed[a]) == score_at(
            scores,
            placed[b],
        ) && placed[a] < placed[b]) by {
            if b < inner.len() {
                assert(placed[a] == inner[a] && placed[b] == inner[b]);
            } else {
                assert(placed[a] == inner[a]);
                assert(inner.contains(inner[a]));
                if inner[a] != i {
                    assert(init.contains(inner[a]));
                    let m = choose|m: int| 0 <= m < init.len() && init[m] == inner[a];
                    assert(order[m] == inner[a]);
                    assert(order[order.len() - 1] == last);
                } else {
                    assert(order[order.len() - 1] == last);
                }
            }
        }
        assert forall|a: int, b: int| 0 <= a < placed.len() && 0 <= b < placed.len() && a != b implies placed[a]
            != placed[b] by {
            if a < inner.len() && b < inner.len() {
                assert(inner[a] != inner[b]);
            } else if a < inner.len() {
                assert(inner.contains(inner[a]));
                if inner[a] == last {
                    assert(init.contains(last));
                    let m = choose|m: int| 0 <= m < init.len() && init[m] == last;
                    assert(order[m] == order[order.len() - 1]);
                }
            } else {
                assert(inner.contains(inner[b]));
                if inner[b] == last {
                    assert(init.contains(last));
                    let m = choose|m: int| 0 <= m < init.len() && init[m] == last;
                    assert(order[m] == order[order.len() - 1]);
                }
            }
        }
    }
}

/// Ranking lists every position once, by falling score, and positions of equal score in
/// their first order: the sort is complete, in order and stable.
pub proof fn lemma_rank_order(scores: Seq<u64>, count: nat)
    ensures
        falls(rank_order(scores, count), scores),
        is_arrangement(rank_order(scores, count), count),
    decreases count,
{
    if count > 0 {
        let before = rank_order(scores, (count - 1) as nat);
        lemma_rank_order(scores, (count - 1) as nat);
        lemma_place_general(before, scores, count - 1);
        let after = rank_order(scores, count);
        assert forall|k: int| 0 <= k < after.len() implies 0 <= #[trigger] after[k] < count by {
            assert(after.contains(after[k]));
            if after[k] != count - 1 {
                assert(before.contains(after[k]));
                let m = choose|m: int| 0 <= m < before.len() && before[m] == after[k];
                assert(0 <= before[m] < count - 1);
            }
        }
    }
}

proof fn lemma_place_at(order: Seq<int>, scores: Seq<u64>, i: int, at: int)
    requires
        0 <= at <= order.len(),
        forall|k: int| at <= k < order.len() ==> score_at(scores, #[trigger] order[k]) < score_at(scores, i),
        at > 0 ==> score_at(scores, order[at - 1]) >= score_at(scores, i),
    ensures
        place_by_score(order, scores, i) == order.insert(at, i),
    decreases order.len(),
{
    if order.len() == 0 {
        assert(order.insert(at, i) =~= seq![i]);
    } else if at == order.len() {
        assert(order.insert(at, i) =~= order.push(i));
    } else {
        let init = order.drop_last();
        assert(score_at(scores, order[order.len() - 1]) < score_at(scores, i));
        assert forall|k: int| at <= k < init.len() implies score_at(scores, #[trigger] init[k]) < score_at(scores, i) by {
            assert(init[k] == order[k]);
        }
        if at > 0 {
            assert(init[at - 1] == order[at - 1]);
        }
        lemma_place_at(init, scores, i, at);
        assert(init.insert(at, i).push(order.last()) =~= order.insert(at, i));
    }
}

/// The positions held by a list of indices.
pub open spec fn positions(order: Seq<usize>) -> Seq<int> {
    order.map_values(|i: usize| i as int)
}

fn score_of(scores: &Vec<u64>, i: usize) -> (score: u64)
    ensures
        score == score_at(scores@, i as int),
{
    if i < scores.len() {
        scores[i]
    } else {
        0
    }
}

/// The names in the order of falling scores, `scores[i]` being the score of `names[i]`
/// and zero standing for a missing score; names of equal score keep their order.
pub fn rank_by_score(names: &Vec<String>, scores: &Vec<u64>) -> (sorted: Vec<String>)
    ensures
        texts(sorted@) == ranked(texts(names@), scores@),
{
    let mut order: Vec<usize> = Vec::new();
    let mut i: usize = 0;
    assert(positions(order@) =~= rank_order(scores@, 0));
    while i < names.len()
        invariant
            i <= names.len(),
            positions(order@) == rank_order(scores@, i as nat),
        decreases names.len() - i,
    {
        let own = score_of(scores, i);
        let mut at: usize = order.len();
        while at > 0 && score_of(scores, order[at - 1]) < own
            invariant
                at <= order.len(),
                own == score_at(scores@, i as int),
                forall|k: int|
                    at <= k < order.len() ==> score_at(scores@, #[trigger] positions(order@)[k])
                        < own,
            decreases at,
        {
            assert(positions(order@)[at - 1] == order[at - 1]);
            at -= 1;
        }
        proof {
            if at > 0 {
                assert(positions(order@)[at - 1] == order[at - 1]);
            }
            lemma_place_at(positions(order@), scores@, i as int, at as int);
        }
        let ghost before = positions(order@);
        order.insert(at, i);
        assert(positions(order@) =~= before.insert(at as int, i as int));
        i += 1;
    }
    proof {
        lemma_rank_order(scores@, names.len() as nat);
    }
    let ghost wanted = ranked(texts(names@), scores@);
    let mut sorted: Vec<String> = Vec::new();
    let mut k: usize = 0;
    while k < order.len()
        invariant
            k <= order.len(),
            order.len() == names.len(),
            positions(order@) == rank_order(scores@, names.len() as nat),
            is_arrangement(positions(order@), names.len() as nat),
            wanted == ranked(texts(names@), scores@),
            texts(sorted@) =~= wanted.take(k as int),
        decreases order.len() - k,
    {
        assert(positions(order@)[k as int] == order[k as int]);
        assert(0 <= positions(order@)[k as int] < names.len());
        let ghost before = texts(sorted@);
        let name = names[order[k]].clone();
        sorted.push(name);
        proof {
            assert(texts(sorted@) =~= before.push(names[order[k as int] as int]@));
            assert(wanted[k as int] == texts(names@)[order[k as int] as int]);
            assert(wanted.take(k + 1) =~= wanted.take(k as int).push(wanted[k as int]));
        }
        k += 1;
    }
    assert(wanted.take(order.len() as int) =~= wanted);
    sorted
}

/// A set of sessions that can be searched by name and listed.
pub trait SessionContainer {
    /// The container is in order.
    spec fn valid(&self) -> bool;

    /// The session under `name`, where there is one.
    spec fn session(&self, name: Seq<char>) -> Option<Session>;

    /// The names of the sessions, in dictionary order.
    spec fn names(&self) -> Seq<Seq<char>>;

    fn find_session(&self, name: &str) -> (found: Option<&Session>)
        requires
            self.valid(),
        ensures
            match found {
                Some(session) => self.session(name@) == Some(*session),
                None => self.session(name@) is None,
            },
    ;

    /// Puts `session` under `name`, in place of a session that was there.
    fn insert_session(&mut self, name: String, session: Session)
        requires
            old(self).valid(),
        ensures
            final(self).valid(),
            final(self).session(name@) == Some(session),
            forall|other: Seq<char>|
                other != name@ ==> #[trigger] final(self).session(other) == old(self).session(
                    other,
                ),
            forall|other: Seq<char>|
                #[trigger] final(self).names().contains(other) <==> (other == name@ || old(
                    self,
                ).names().contains(other)),
    ;

    /// The names of the sessions, in dictionary order.
    fn list(&self) -> (names: Vec<String>)
        requires
            self.valid(),
        ensures
            texts(names@) == self.names(),
            strictly_sorted(self.names()),
    ;

    /// The names of the sessions in the configured order: by falling score for the
    /// frecency order, `scores[i]` being the score of the `i`-th name in dictionary
    /// order and names of equal score staying in that order; in dictionary order for
    /// every other setting.
    fn list_sorted(&self, config: &Config, scores: &Vec<u64>) -> (names: Vec<String>)
        requires
            self.valid(),
        ensures
            texts(names@) == if config.session_sort_order == Some(
                SessionSortOrderConfig::Frecency,
            ) {
                ranked(self.names(), scores@)
            } else {
                self.names()
            },
    ;
}

/// Sessions by the name under which the picker shows them, in dictionary order.
pub struct SessionMap {
    table: SortedTable<Session>,
}

impl SessionMap {
    /// The map without sessions.
    pub fn new() -> (map: SessionMap)
        ensures
            map.valid(),
            map.names() == Seq::<Seq<char>>::empty(),
    {
        SessionMap { table: SortedTable::new() }
    }

    /// The number of sessions.
    pub fn len(&self) -> (len: usize)
        requires
            self.valid(),
        ensures
            len == self.names().len(),
    {
        self.table.len()
    }
}

impl SessionContainer for SessionMap {
    closed spec fn valid(&self) -> bool {
        self.table.wf()
    }

    closed spec fn session(&self, name: Seq<char>) -> Option<Session> {
        self.table.lookup(name)
    }

    closed spec fn names(&self) -> Seq<Seq<char>> {
        self.table.keys()
    }

    fn find_session(&self, name: &str) -> (found: Option<&Session>) {
        let key = chars_of(name);
        match self.table.position(&key) {
            Some(i) => Some(self.table.value_at(i)),
            None => None,
        }
    }

    fn insert_session(&mut self, name: String, session: Session) {
        let key = chars_of(name.as_str());
        self.table.put(key, session);
    }

    fn list(&self) -> (names: Vec<String>) {
        proof {
            self.table.lemma_wf();
        }
        let mut names: Vec<String> = Vec::new();
        let mut i: usize = 0;
        while i < self.table.len()
            invariant
                self.table.wf(),
                i <= self.table.keys().len(),
                texts(names@) =~= self.table.keys().take(i as int),
            decreases self.table.keys().len() - i,
        {
            let ghost before = texts(names@);
            let name = string_of(self.table.key_at(i));
            names.push(name);
            proof {
                assert(texts(names@) =~= before.push(self.table.keys()[i as int]));
                assert(self.table.keys().take(i + 1) =~= self.table.keys().take(i as int).push(
                    self.table.keys()[i as int],
                ));
            }
            i += 1;
        }
        assert(self.table.keys().take(self.table.keys().len() as int) =~= self.table.keys());
        names
    }

    fn list_sorted(&self, config: &Config, scores: &Vec<u64>) -> (names: Vec<String>) {
        let names = self.list();
        match config.session_sort_order {
            Some(SessionSortOrderConfig::Frecency) => rank_by_score(&names, scores),
            _ => names,
        }
    }
}

/// The name of a session rooted at `path` that shows its last `width` components.
pub open spec fn name_of_width(path: Seq<char>, width: nat) -> Seq<char> {
    join_components(last_components(components(path), width))
}

/// The names of sessions rooted at `paths`, each showing its last `width` components.
pub open spec fn names_of_width(paths: Seq<Seq<char>>, width: nat) -> Seq<Seq<char>> {
    paths.map_values(|path: Seq<char>| name_of_width(path, width))
}

/// The greatest number of components that one of `paths` has.
pub open spec fn most_components(paths: Seq<Seq<char>>) -> nat
    decreases paths.len(),
{
    if paths.len() == 0 {
        0
    } else {
        let rest = most_components(paths.drop_last());
        let own = components(paths.last()).len();
        if own > rest {
            own
        } else {
            rest
        }
    }
}

/// The least width from `from` on, and below `limit`, at which the names of sessions
/// rooted at `paths` are all different; where there is none, the first width that is
/// not below `limit`.
pub open spec fn least_width(paths: Seq<Seq<char>>, from: nat, limit: nat) -> nat
    decreases limit - from,
{
    if from >= limit || names_of_width(paths, from).no_duplicates() {
        from
    } else {
        least_width(paths, from + 1, limit)
    }
}

/// The number of components that sessions of one name show so that they can be told
/// apart: the name itself and the least number of directories above it, the same for
/// all, that makes every name different. Where no number does, every session shows its
/// whole path.
pub open spec fn disambiguation_width(paths: Seq<Seq<char>>) -> nat {
    least_width(paths, 2, most_components(paths))
}

/// The root directories of `sessions`, in order.
pub open spec fn session_paths(sessions: Seq<Session>) -> Seq<Seq<char>> {
    sessions.map_values(|session: Session| session.path_spec())
}

/// What a session stands for: its name as text, and what it is rooted at.
pub ghost struct SessionView {
    pub name: Seq<char>,
    pub session_type: SessionType,
}

impl View for Session {
    type V = SessionView;

    open spec fn view(&self) -> SessionView {
        SessionView { name: self.name@, session_type: self.session_type }
    }
}

/// What the sessions of a list stand for, in order.
pub open spec fn identities(sessions: Seq<Session>) -> Seq<SessionView> {
    sessions.map_values(|session: Session| session@)
}

/// `sessions` in reverse order, each renamed to show as many components of its root
/// directory as tells them all apart.
pub open spec fn deduplicated(sessions: Seq<Session>) -> Seq<SessionView> {
    let width = disambiguation_width(session_paths(sessions));
    Seq::new(
        sessions.len(),
        |k: int|
            {
                let session = sessions[sessions.len() - 1 - k];
                SessionView {
                    name: name_of_width(session.path_spec(), width),
                    session_type: session.session_type,
                }
            },
    )
}

fn all_different(names: &Vec<Vec<char>>) -> (different: bool)
    ensures
        different == rows(names@).no_duplicates(),
{
    let ghost all = rows(names@);
    let mut i: usize = 0;
    while i < names.len()
        invariant
            i <= names.len(),
            all == rows(names@),
            forall|a: int, b: int| 0 <= a < b < i ==> all[a] != all[b],
        decreases names.len() - i,
    {
        let mut j: usize = 0;
        while j < i
            invariant
                j <= i < names.len(),
                all == rows(names@),
                forall|a: int| 0 <= a < j ==> all[a] != all[i as int],
            decreases i - j,
        {
            assert(all[j as int] == names[j as int]@ && all[i as int] == names[i as int]@);
            if text_equal(&names[j], &names[i]) {
                return false;
            }
            j += 1;
        }
        i += 1;
    }
    assert forall|a: int, b: int| 0 <= a < all.len() && 0 <= b < all.len() && a != b implies all[a]
        != all[b] by {
        if a < b {
            assert(all[a] != all[b]);
        } else {
            assert(all[b] != all[a]);
        }
    }
    true
}

/// The components of each of a list of paths.
pub open spec fn all_components(paths: Seq<Seq<char>>) -> Seq<Seq<Seq<char>>> {
    paths.map_values(|path: Seq<char>| components(path))
}

/// The rows of each of a list of lists of character vectors.
pub open spec fn tables(parts: Seq<Vec<Vec<char>>>) -> Seq<Seq<Seq<char>>> {
    parts.map_values(|part: Vec<Vec<char>>| rows(part@))
}

fn names_with_width(parts: &Vec<Vec<Vec<char>>>, width: usize, Ghost(paths): Ghost<Seq<Seq<char>>>) -> (names: Vec<Vec<char>>)
    requires
        tables(parts@) == all_components(paths),
    ensures
        rows(names@) == names_of_width(paths, width as nat),
{
    let mut names: Vec<Vec<char>> = Vec::new();
    let mut i: usize = 0;
    let ghost wanted = names_of_width(paths, width as nat);
    assert(tables(parts@).len() == parts.len());
    while i < parts.len()
        invariant
            i <= parts.len(),
            parts.len() == paths.len(),
            tables(parts@) == all_components(paths),
            wanted == names_of_width(paths, width as nat),
            rows(names@) =~= wanted.take(i as int),
        decreases parts.len() - i,
    {
        let ghost before = rows(names@);
        let name = join_last(&parts[i], width);
        proof {
            assert(tables(parts@)[i as int] == rows(parts[i as int]@));
            assert(all_components(paths)[i as int] == components(paths[i as int]));
            assert(name@ == wanted[i as int]);
        }
        names.push(name);
        proof {
            assert(rows(names@) =~= before.push(wanted[i as int]));
            assert(wanted.take(i + 1) =~= wanted.take(i as int).push(wanted[i as int]));
        }
        i += 1;
    }
    assert(wanted.take(parts.len() as int) =~= wanted);
    names
}

/// Renames sessions that share a name so that they can be told apart: each shows the
/// same number of trailing components of its root directory, the least number that makes
/// all the names different. The sessions are taken out of `duplicate_sessions` and
/// returned in reverse order.
pub fn deduplicate_sessions(duplicate_sessions: &mut Vec<Session>) -> (renamed: Vec<Session>)
    ensures
        final(duplicate_sessions)@.len() == 0,
        identities(renamed@) == deduplicated(old(duplicate_sessions)@),
{
    let ghost sessions = duplicate_sessions@;
    let ghost paths = session_paths(sessions);
    let told_apart = tell_apart(duplicate_sessions);
    let width = told_apart.0;
    let names = told_apart.1;
    let mut renamed: Vec<Session> = Vec::new();
    let ghost wanted = deduplicated(sessions);
    while duplicate_sessions.len() > 0
        invariant
            duplicate_sessions@ == sessions.take(duplicate_sessions@.len() as int),
            names.len() == sessions.len(),
            rows(names@) == names_of_width(paths, width as nat),
            paths == session_paths(sessions),
            width == disambiguation_width(paths),
            wanted == deduplicated(sessions),
            renamed@.len() + duplicate_sessions@.len() == sessions.len(),
            identities(renamed@) =~= wanted.take(renamed@.len() as int),
        decreases duplicate_sessions.len(),
    {
        let ghost before = identities(renamed@);
        let ghost k = renamed@.len() as int;
        let index = duplicate_sessions.len() - 1;
        let session = duplicate_sessions.pop().unwrap();
        let name = string_of(&names[index]);
        proof {
            assert(session == sessions[index as int]);
            assert(rows(names@)[index as int] == names[index as int]@);
            assert(names_of_width(paths, width as nat)[index as int] == name_of_width(
                paths[index as int],
                width as nat,
            ));
            assert(paths[index as int] == session.path_spec());
            assert(duplicate_sessions@ =~= sessions.take(index as int));
            assert(index == sessions.len() - 1 - k);
        }
        let session = Session { name, session_type: session.session_type };
        renamed.push(session);
        proof {
            assert(identities(renamed@) =~= before.push(session@));
            assert(wanted.take(k + 1) =~= wanted.take(k).push(wanted[k]));
        }
    }
    assert(wanted.take(sessions.len() as int) =~= wanted);
    renamed
}

/// The number of components that the sessions show so that they can be told apart,
/// and the names that they show with it, in order.
pub fn tell_apart(duplicate_sessions: &Vec<Session>) -> (told_apart: (usize, Vec<Vec<char>>))
    ensures
        told_apart.0 == disambiguation_width(session_paths(duplicate_sessions@)),
        rows(told_apart.1@) == names_of_width(
            session_paths(duplicate_sessions@),
            told_apart.0 as nat,
        ),
        told_apart.1@.len() == duplicate_sessions@.len(),
{
    let ghost sessions = duplicate_sessions@;
    let ghost paths = session_paths(sessions);
    let mut parts: Vec<Vec<Vec<char>>> = Vec::new();
    let mut most: usize = 0;
    let mut i: usize = 0;
    while i < duplicate_sessions.len()
        invariant
            i <= duplicate_sessions.len(),
            duplicate_sessions@ == sessions,
            paths == session_paths(sessions),
            tables(parts@) =~= all_components(paths.take(i as int)),
            most == most_components(paths.take(i as int)),
        decreases duplicate_sessions.len() - i,
    {
        let ghost before = tables(parts@);
        let path = duplicate_sessions[i].path();
        let own = split_components(path.as_str());
        proof {
            assert(paths.take(i + 1).drop_last() =~= paths.take(i as int));
            assert(paths.take(i + 1).last() == path@);
        }
        if own.len() > most {
            most = own.len();
        }
        parts.push(own);
        proof {
            assert(tables(parts@) =~= before.push(components(path@)));
            assert(all_components(paths.take(i + 1)) =~= all_components(paths.take(i as int)).push(
                components(path@),
            ));
        }
        i += 1;
    }
    assert(paths.take(duplicate_sessions.len() as int) =~= paths);
    let mut width: usize = 2;
    let mut names = names_with_width(&parts, width, Ghost(paths));
    while width < most && !all_different(&names)
        invariant
            2 <= width,
            tables(parts@) == all_components(paths),
            most == most_components(paths),
            rows(names@) == names_of_width(paths, width as nat),
            least_width(paths, 2, most as nat) == least_width(paths, width as nat, most as nat),
        decreases most - width,
    {
        width += 1;
        names = names_with_width(&parts, width, Ghost(paths));
    }
    assert(width == disambiguation_width(paths));
    assert(rows(names@).len() == names@.len());
    (width, names)
}

/// The name under which the picker shows a session: its root directory where full
/// paths are asked for, its name otherwise.
pub open spec fn shown_name(session: SessionView, full_path: bool) -> Seq<char> {
    if full_path {
        root_of(session.session_type)
    } else {
        session.name
    }
}

/// `map` with each of `sessions` put under the name it is shown by, in order; a later
/// session replaces an earlier one of the same shown name.
pub open spec fn insert_all(
    map: Map<Seq<char>, SessionView>,
    sessions: Seq<SessionView>,
    full_path: bool,
) -> Map<Seq<char>, SessionView>
    decreases sessions.len(),
{
    if sessions.len() == 0 {
        map
    } else {
        insert_all(map, sessions.drop_last(), full_path).insert(
            shown_name(sessions.last(), full_path),
            sessions.last(),
        )
    }
}

/// The sessions of a group as they enter the container: a single session as it is,
/// several of one name renamed so that they can be told apart.
pub open spec fn resolve_group(group: Seq<Session>) -> Seq<SessionView> {
    if group.len() == 1 {
        identities(group)
    } else {
        deduplicated(group)
    }
}

/// The groups that a list of lists of sessions holds.
pub open spec fn group_views(groups: Seq<Vec<Session>>) -> Seq<Seq<Session>> {
    groups.map_values(|group: Vec<Session>| group@)
}

/// The container made of `groups`, taken in order.
pub open spec fn container_of(groups: Seq<Seq<Session>>, full_path: bool) -> Map<
    Seq<char>,
    SessionView,
>
    decreases groups.len(),
{
    if groups.len() == 0 {
        Map::empty()
    } else {
        insert_all(
            container_of(groups.drop_last(), full_path),
            resolve_group(groups.last()),
            full_path,
        )
    }
}

impl View for SessionMap {
    type V = Map<Seq<char>, SessionView>;

    /// The sessions by the name they are shown under.
    open spec fn view(&self) -> Map<Seq<char>, SessionView> {
        Map::new(|name: Seq<char>| self.names().contains(name), |name: Seq<char>| self.session(name)->0@)
    }
}

impl SessionMap {
    /// The names of the container stand in strict dictionary order.
    pub proof fn lemma_sorted(&self)
        requires
            self.valid(),
        ensures
            strictly_sorted(self.names()),
    {
        self.table.lemma_wf();
    }

    /// Exactly the names of the container have a session.
    pub proof fn lemma_names(&self)
        requires
            self.valid(),
        ensures
            forall|name: Seq<char>| #[trigger] self.names().contains(name) <==> self.session(name) is Some,
    {
        assert forall|name: Seq<char>| #[trigger] self.names().contains(name) <==> self.session(name) is Some by {
            self.table.lemma_wf();
        }
    }

    /// Puts `session` into the container under the name it is shown by.
    pub fn add(&mut self, session: Session, config: &Config)
        requires
            old(self).valid(),
        ensures
            final(self).valid(),
            final(self)@ == old(self)@.insert(
                shown_name(session@, config.display_full_path == Some(true)),
                session@,
            ),
    {
        self.add_shown(session, shows_full_path(config));
    }

    /// Puts `session` into the container under its root directory, where `full_path` is
    /// set, or under its name.
    pub fn add_shown(&mut self, session: Session, full_path: bool)
        requires
            old(self).valid(),
        ensures
            final(self).valid(),
            final(self)@ == old(self)@.insert(shown_name(session@, full_path), session@),
    {
        let name = session.visible_name(Some(full_path));
        proof {
            old(self).lemma_names();
        }
        let ghost shown = name@;
        let ghost view = session@;
        self.insert_session(name, session);
        proof {
            self.lemma_names();
            assert(self@ =~= old(self)@.insert(shown, view));
        }
    }
}

/// Whether the configuration asks for sessions to be shown by their root directories.
pub fn shows_full_path(config: &Config) -> (full_path: bool)
    ensures
        full_path == (config.display_full_path == Some(true)),
{
    match config.display_full_path {
        Some(true) => true,
        _ => false,
    }
}

/// A copy of a list of sessions.
pub fn copy_sessions(sessions: &Vec<Session>) -> (copy: Vec<Session>)
    ensures
        copy@ == sessions@,
{
    let mut copy: Vec<Session> = Vec::new();
    let mut i: usize = 0;
    while i < sessions.len()
        invariant
            i <= sessions.len(),
            copy@ == sessions@.take(i as int),
        decreases sessions.len() - i,
    {
        copy.push(sessions[i].duplicate());
        i += 1;
    }
    assert(sessions@.take(sessions.len() as int) =~= sessions@);
    copy
}

/// Puts a session into a container under the name it is shown by.
pub fn insert_session(sessions: &mut SessionMap, session: Session, config: &Config)
    requires
        old(sessions).valid(),
    ensures
        final(sessions).valid(),
        final(sessions)@ == old(sessions)@.insert(
            shown_name(session@, config.display_full_path == Some(true)),
            session@,
        ),
{
    sessions.add(session, config);
}

/// The container for groups of sessions, each group being the sessions of one name:
/// a single session enters as it is, several are renamed so that they can be told apart.
pub fn generate_session_container(groups: Vec<Vec<Session>>, config: &Config) -> (container: SessionMap)
    ensures
        container.valid(),
        container@ == container_of(group_views(groups@), config.display_full_path == Some(true)),
{
    container_for(groups, shows_full_path(config))
}

/// The container for groups of sessions, the sessions shown by their root directories
/// where `full_path` is set, and by their names otherwise.
pub fn container_for(groups: Vec<Vec<Session>>, full_path: bool) -> (container: SessionMap)
    ensures
        container.valid(),
        container@ == container_of(group_views(groups@), full_path),
{
    let ghost full = full_path;
    let ghost all = group_views(groups@);
    let mut container = SessionMap::new();
    let mut done: usize = 0;
    let total = groups.len();
    proof {
        container.lemma_names();
        assert(container@ =~= Map::<Seq<char>, SessionView>::empty());
        assert(all.take(0) =~= Seq::<Seq<Session>>::empty());
    }
    while done < total
        invariant
            done <= total,
            total == groups.len(),
            all == group_views(groups@),
            container.valid(),
            full == full_path,
            container@ == container_of(all.take(done as int), full),
        decreases total - done,
    {
        proof {
            assert(all[done as int] == groups[done as int]@);
            assert(all.take(done + 1).drop_last() =~= all.take(done as int));
            assert(all.take(done + 1).last() == all[done as int]);
        }
        let mut group = copy_sessions(&groups[done]);
        let resolved = if group.len() == 1 {
            group
        } else {
            deduplicate_sessions(&mut group)
        };
        let ghost wanted = resolve_group(all[done as int]);
        assert(identities(resolved@) == wanted);
        let ghost base = container@;
        let mut placed: usize = 0;
        while placed < resolved.len()
            invariant
                placed <= resolved.len(),
                identities(resolved@) == wanted,
                container.valid(),
                full == full_path,
                container@ == insert_all(base, wanted.take(placed as int), full),
            decreases resolved.len() - placed,
        {
            proof {
                assert(resolved[placed as int]@ == wanted[placed as int]);
                assert(wanted.take(placed + 1).drop_last() =~= wanted.take(placed as int));
                assert(wanted.take(placed + 1).last() == wanted[placed as int]);
            }
            container.add_shown(resolved[placed].duplicate(), full_path);
            placed += 1;
        }
        proof {
            assert(wanted.take(resolved.len() as int) =~= wanted);
        }
        done += 1;
    }
    proof {
        assert(all.take(total as int) =~= all);
    }
    container
}

/// `sessions` sorted into groups by name: under each name the sessions of that name, in
/// the order in which they stand in `sessions`.
pub open spec fn grouping(sessions: Seq<Session>) -> Map<Seq<char>, Seq<Session>>
    decreases sessions.len(),
{
    if sessions.len() == 0 {
        Map::empty()
    } else {
        add_to_group(grouping(sessions.drop_last()), sessions.last())
    }
}

/// `groups` with `session` added to the group of its name.
pub open spec fn add_to_group(groups: Map<Seq<char>, Seq<Session>>, session: Session) -> Map<
    Seq<char>,
    Seq<Session>,
> {
    groups.insert(
        session.name@,
        if groups.dom().contains(session.name@) {
            groups[session.name@].push(session)
        } else {
            seq![session]
        },
    )
}

/// `names` holds exactly the names of `groups`, in dictionary order.
pub open spec fn lists_names(names: Seq<Seq<char>>, groups: Map<Seq<char>, Seq<Session>>) -> bool {
    &&& strictly_sorted(names)
    &&& forall|name: Seq<char>| #[trigger] names.contains(name) <==> groups.dom().contains(name)
}

/// The groups in the dictionary order of their names.
pub open spec fn groups_in_order(groups: Map<Seq<char>, Seq<Session>>) -> Seq<Seq<Session>> {
    let names = choose|names: Seq<Seq<char>>| lists_names(names, groups);
    names.map_values(|name: Seq<char>| groups[name])
}

/// Texts in strict dictionary order are determined by which texts they are.
pub proof fn lemma_sorted_listing_unique(a: Seq<Seq<char>>, b: Seq<Seq<char>>)
    requires
        strictly_sorted(a),
        strictly_sorted(b),
        forall|x: Seq<char>| #[trigger] a.contains(x) <==> b.contains(x),
    ensures
        a == b,
    decreases a.len(),
{
    if a.len() == 0 {
        if b.len() > 0 {
            assert(b.contains(b[0]));
            assert(a.contains(b[0]));
        }
        assert(a =~= b);
    } else if b.len() == 0 {
        assert(a.contains(a[0]));
        assert(b.contains(a[0]));
    } else {
        let x = a.last();
        let y = b.last();
        assert(a.contains(x));
        assert(b.contains(y));
        assert(b.contains(x));
        assert(a.contains(y));
        let i = choose|i: int| 0 <= i < b.len() && b[i] == x;
        let j = choose|j: int| 0 <= j < a.len() && a[j] == y;
        if x != y {
            assert(i < b.len() - 1);
            assert(j < a.len() - 1);
            assert(lex_less(b[i], b[b.len() - 1]));
            assert(lex_less(a[j], a[a.len() - 1]));
            lemma_lex_transitive(x, y, x);
            lemma_lex_irreflexive(x);
        }
        assert(x == y);
        let a0 = a.drop_last();
        let b0 = b.drop_last();
        assert forall|z: Seq<char>| #[trigger] a0.contains(z) <==> b0.contains(z) by {
            if a0.contains(z) {
                let k = choose|k: int| 0 <= k < a0.len() && a0[k] == z;
                assert(a[k] == z);
                assert(lex_less(a[k], a[a.len() - 1]));
                lemma_lex_irreflexive(z);
                assert(z != x);
                assert(a.contains(z));
                assert(b.contains(z));
                let m = choose|m: int| 0 <= m < b.len() && b[m] == z;
                assert(m < b.len() - 1);
                assert(b0[m] == z);
            }
            if b0.contains(z) {
                let k = choose|k: int| 0 <= k < b0.len() && b0[k] == z;
                assert(b[k] == z);
                assert(lex_less(b[k], b[b.len() - 1]));
                lemma_lex_irreflexive(z);
                assert(z != y);
                assert(b.contains(z));
                assert(a.contains(z));
                let m = choose|m: int| 0 <= m < a.len() && a[m] == z;
                assert(m < a.len() - 1);
                assert(a0[m] == z);
            }
        }
        assert(strictly_sorted(a0)) by {
            assert forall|p: int, q: int| 0 <= p < q < a0.len() implies lex_less(#[trigger] a0[p], #[trigger] a0[q]) by {
                assert(lex_less(a[p], a[q]));
            }
        }
        assert(strictly_sorted(b0)) by {
            assert forall|p: int, q: int| 0 <= p < q < b0.len() implies lex_less(#[trigger] b0[p], #[trigger] b0[q]) by {
                assert(lex_less(b[p], b[q]));
            }
        }
        lemma_sorted_listing_unique(a0, b0);
        assert(a =~= a0.push(x));
        assert(b =~= b0.push(y));
    }
}

/// Sessions sorted into groups by name, the names in dictionary order.
pub struct SessionGroups {
    table: SortedTable<Vec<Session>>,
}

impl View for SessionGroups {
    type V = Map<Seq<char>, Seq<Session>>;

    /// The groups by name.
    closed spec fn view(&self) -> Map<Seq<char>, Seq<Session>> {
        Map::new(
            |name: Seq<char>| self.table.keys().contains(name),
            |name: Seq<char>| self.table.lookup(name)->0@,
        )
    }
}

impl SessionGroups {
    pub closed spec fn valid(&self) -> bool {
        self.table.wf()
    }

    /// No groups.
    pub fn new() -> (groups: SessionGroups)
        ensures
            groups.valid(),
            groups@ == Map::<Seq<char>, Seq<Session>>::empty(),
    {
        let groups = SessionGroups { table: SortedTable::new() };
        assert(groups@ =~= Map::<Seq<char>, Seq<Session>>::empty());
        groups
    }

    /// Adds `session` to the group of its name, behind the sessions that are in it.
    pub fn add(&mut self, session: Session)
        requires
            old(self).valid(),
        ensures
            final(self).valid(),
            final(self)@ == add_to_group(old(self)@, session),
    {
        let key = chars_of(session.name.as_str());
        proof {
            old(self).table.lemma_wf();
        }
        match self.table.position(&key) {
            Some(i) => {
                let mut group = self.table.swap_at(i, Vec::new());
                let ghost before = group@;
                group.push(session);
                let ghost after = group@;
                self.table.swap_at(i, group);
                proof {
                    self.table.lemma_wf();
                    assert(self.table.keys() == old(self).table.keys());
                    assert(self.table.values() =~= old(self).table.values().update(i as int, group));
                    assert forall|name: Seq<char>| #[trigger] self@.dom().contains(name) implies self@[name] == add_to_group(old(self)@, session)[name] by {
                        let k = choose|k: int| 0 <= k < self.table.keys().len() && self.table.keys()[k] == name;
                        assert(self.table.lookup(self.table.keys()[k]) == Some(self.table.values()[k]));
                        assert(old(self).table.lookup(old(self).table.keys()[k]) == Some(old(self).table.values()[k]));
                    }
                    assert(self@ =~= add_to_group(old(self)@, session));
                }
            },
            None => {
                let mut group: Vec<Session> = Vec::new();
                group.push(session);
                assert(group@ =~= seq![session]);
                self.table.put(key, group);
                proof {
                    assert(self@ =~= add_to_group(old(self)@, session));
                }
            },
        }
    }

    /// How many sessions have the name `name`.
    pub fn group_len(&self, name: &str) -> (len: usize)
        requires
            self.valid(),
        ensures
            len == if self@.dom().contains(name@) {
                self@[name@].len()
            } else {
                0
            },
    {
        let key = chars_of(name);
        match self.table.position(&key) {
            Some(i) => self.table.value_at(i).len(),
            None => 0,
        }
    }

    /// The names of the groups can be listed in dictionary order.
    pub proof fn lemma_listed(&self)
        requires
            self.valid(),
        ensures
            exists|names: Seq<Seq<char>>| lists_names(names, self@),
    {
        self.table.lemma_wf();
        assert(lists_names(self.table.keys(), self@));
    }

    /// The sessions that have the name `name`, where there are any.
    pub fn group(&self, name: &str) -> (group: Option<&Vec<Session>>)
        requires
            self.valid(),
        ensures
            match group {
                Some(sessions) => self@.dom().contains(name@) && sessions@ == self@[name@],
                None => !self@.dom().contains(name@),
            },
    {
        let key = chars_of(name);
        proof {
            self.table.lemma_wf();
        }
        match self.table.position(&key) {
            Some(i) => Some(self.table.value_at(i)),
            None => None,
        }
    }

    /// The groups, in the dictionary order of their names.
    pub fn into_groups(self) -> (groups: Vec<Vec<Session>>)
        requires
            self.valid(),
        ensures
            group_views(groups@) == groups_in_order(self@),
    {
        proof {
            self.table.lemma_wf();
            let keys = self.table.keys();
            assert(lists_names(keys, self@));
            let chosen = choose|names: Seq<Seq<char>>| lists_names(names, self@);
            lemma_sorted_listing_unique(keys, chosen);
            assert forall|k: int| 0 <= k < keys.len() implies self.table.values()[k]@ == groups_in_order(self@)[k] by {
                assert(self.table.lookup(keys[k]) == Some(self.table.values()[k]));
                assert(keys.contains(keys[k]));
            }
            assert(group_views(self.table.values()) =~= groups_in_order(self@));
        }
        self.table.into_values()
    }
}

/// The sessions found by discovery, sorted into groups by name.
pub fn group_sessions(found: Vec<Session>) -> (groups: SessionGroups)
    ensures
        groups.valid(),
        groups@ == grouping(found@),
{
    let mut groups = SessionGroups::new();
    let mut i: usize = 0;
    assert(found@.take(0) =~= Seq::<Session>::empty());
    while i < found.len()
        invariant
            i <= found.len(),
            groups.valid(),
            groups@ == grouping(found@.take(i as int)),
        decreases found.len() - i,
    {
        proof {
            assert(found@.take(i + 1).drop_last() =~= found@.take(i as int));
            assert(found@.take(i + 1).last() == found@[i as int]);
        }
        let session = found[i].duplicate();
        groups.add(session);
        i += 1;
    }
    assert(found@.take(found.len() as int) =~= found@);
    groups
}

/// The name of the session for a bookmarked directory: the name that its path ends in,
/// or `unknown` where it ends in none.
pub open spec fn bookmark_name(path: Seq<char>) -> Seq<char> {
    match base_name_spec(path) {
        Some(name) => name,
        None => "unknown"@,
    }
}

/// The session for the bookmarked directory `path`.
pub fn bookmark_session(path: &str) -> (session: Session)
    ensures
        session.name@ == bookmark_name(path@),
        session.session_type matches SessionType::Bookmark(root) && root@ == path@,
{
    let name = match base_name(path) {
        Some(name) => name,
        None => "unknown".to_string(),
    };
    Session::new(name, SessionType::Bookmark(path.to_string()))
}

/// `groups` with a session for each bookmarked directory added, in order.
pub open spec fn with_bookmarks(
    groups: Map<Seq<char>, Seq<Session>>,
    added: Seq<Session>,
) -> Map<Seq<char>, Seq<Session>>
    decreases added.len(),
{
    if added.len() == 0 {
        groups
    } else {
        add_to_group(with_bookmarks(groups, added.drop_last()), added.last())
    }
}

/// `session` is the session for the bookmarked directory `path`.
pub open spec fn is_bookmark_of(session: Session, path: Seq<char>) -> bool {
    &&& session.name@ == bookmark_name(path)
    &&& session.session_type matches SessionType::Bookmark(root)
    &&& root@ == path
}

/// `sessions` are the sessions for the bookmarked directories `paths`, one for each, in
/// order.
pub open spec fn are_bookmarks_of(sessions: Seq<Session>, paths: Seq<String>) -> bool {
    &&& sessions.len() == paths.len()
    &&& forall|i: int| 0 <= i < paths.len() ==> is_bookmark_of(#[trigger] sessions[i], paths[i]@)
}

/// Adds a session for each bookmarked directory to the group of its name, in the order
/// of the paths.
pub fn append_bookmarks(groups: SessionGroups, bookmark_paths: &Vec<String>) -> (result: SessionGroups)
    requires
        groups.valid(),
    ensures
        result.valid(),
        exists|added: Seq<Session>|
            are_bookmarks_of(added, bookmark_paths@) && result@ == #[trigger] with_bookmarks(
                groups@,
                added,
            ),
{
    let mut groups = groups;
    let ghost base = groups@;
    let ghost mut added: Seq<Session> = Seq::empty();
    let mut i: usize = 0;
    while i < bookmark_paths.len()
        invariant
            i <= bookmark_paths.len(),
            groups.valid(),
            added.len() == i,
            forall|k: int| 0 <= k < i ==> is_bookmark_of(#[trigger] added[k], bookmark_paths@[k]@),
            groups@ == with_bookmarks(base, added),
        decreases bookmark_paths.len() - i,
    {
        let session = bookmark_session(bookmark_paths[i].as_str());
        proof {
            let before = added;
            added = added.push(session);
            assert(added.drop_last() =~= before);
        }
        groups.add(session);
        i += 1;
    }
    assert(are_bookmarks_of(added, bookmark_paths@));
    groups
}

/// The container for the sessions found by discovery and the bookmarked directories:
/// all are sorted into groups by name, the bookmarks behind the sessions found, and
/// the groups enter the container in the dictionary order of their names.
pub fn create_sessions(config: &Config, found: Vec<Session>, bookmark_paths: &Vec<String>) -> (container: SessionMap)
    ensures
        container.valid(),
        exists|added: Seq<Session>|
            are_bookmarks_of(added, bookmark_paths@) && container@ == container_of(
                groups_in_order(#[trigger] with_bookmarks(grouping(found@), added)),
                config.display_full_path == Some(true),
            ),
{
    let groups = group_sessions(found);
    let groups = append_bookmarks(groups, bookmark_paths);
    generate_session_container(groups.into_groups(), config)
}

/// The name under which the `i`-th of the sessions `arrived` is shown: its root directory
/// where full paths are asked for; its own name where no other session has that name;
/// else as many components of its root directory as tell the sessions of that name apart.
pub open spec fn shown_as(arrived: Seq<Session>, full_path: bool, i: int) -> Seq<char> {
    let session = arrived[i];
    let groups = grouping(arrived);
    if full_path {
        session.path_spec()
    } else if groups.dom().contains(session.name@) && groups[session.name@].len() > 1 {
        name_of_width(
            session.path_spec(),
            disambiguation_width(session_paths(groups[session.name@])),
        )
    } else {
        session.name@
    }
}

/// The names under which the sessions `arrived` are shown, in the order of their arrival.
pub open spec fn names_by_arrival(arrived: Seq<Session>, full_path: bool) -> Seq<Seq<char>> {
    Seq::new(arrived.len(), |i: int| shown_as(arrived, full_path, i))
}

/// Each of the sessions `arrived` stands in the group of its name.
proof fn lemma_arrived_in_group(arrived: Seq<Session>, i: int)
    requires
        0 <= i < arrived.len(),
    ensures
        grouping(arrived).dom().contains(arrived[i].name@),
        grouping(arrived)[arrived[i].name@].contains(arrived[i]),
    decreases arrived.len(),
{
    let before = arrived.drop_last();
    let last = arrived.last();
    let groups = grouping(before);
    let group = grouping(arrived)[last.name@];
    if i == arrived.len() - 1 {
        assert(group[group.len() - 1] == last);
    } else {
        lemma_arrived_in_group(before, i);
        assert(before[i] == arrived[i]);
        if last.name@ == arrived[i].name@ {
            let k = choose|k: int| 0 <= k < groups[last.name@].len() && groups[last.name@][k] == arrived[i];
            assert(group[k] == arrived[i]);
        }
    }
}

/// What `insert_all` puts into a container stays in it, with what was there: every one
/// of the sessions has its name in the container.
proof fn lemma_insert_all_dom(map: Map<Seq<char>, SessionView>, sessions: Seq<SessionView>, full_path: bool)
    ensures
        forall|name: Seq<char>| map.dom().contains(name) ==> #[trigger] insert_all(map, sessions, full_path).dom().contains(name),
        forall|k: int| 0 <= k < sessions.len() ==> insert_all(map, sessions, full_path).dom().contains(
            shown_name(#[trigger] sessions[k], full_path),
        ),
    decreases sessions.len(),
{
    if sessions.len() > 0 {
        let init = sessions.drop_last();
        lemma_insert_all_dom(map, init, full_path);
        assert forall|name: Seq<char>| map.dom().contains(name) implies #[trigger] insert_all(
            map,
            sessions,
            full_path,
        ).dom().contains(name) by {
            assert(insert_all(map, init, full_path).dom().contains(name));
        }
        assert forall|k: int| 0 <= k < sessions.len() implies insert_all(map, sessions, full_path).dom().contains(
            shown_name(#[trigger] sessions[k], full_path),
        ) by {
            if k < sessions.len() - 1 {
                assert(init[k] == sessions[k]);
            }
        }
    }
}

/// Every session of every group has its name in the container made of the groups.
proof fn lemma_container_dom(groups: Seq<Seq<Session>>, full_path: bool, t: int, k: int)
    requires
        0 <= t < groups.len(),
        0 <= k < resolve_group(groups[t]).len(),
    ensures
        container_of(groups, full_path).dom().contains(
            shown_name(resolve_group(groups[t])[k], full_path),
        ),
    decreases groups.len(),
{
    let init = groups.drop_last();
    lemma_insert_all_dom(container_of(init, full_path), resolve_group(groups.last()), full_path);
    if t < groups.len() - 1 {
        assert(init[t] == groups[t]);
        lemma_container_dom(init, full_path, t, k);
    }
}

/// Every session that has arrived is shown: the name under which it is shown has a
/// session in the container that the arrivals give.
proof fn lemma_arrivals_are_shown(arrived: Seq<Session>, full_path: bool, i: int)
    requires
        0 <= i < arrived.len(),
        exists|names: Seq<Seq<char>>| lists_names(names, grouping(arrived)),
    ensures
        container_of(groups_in_order(grouping(arrived)), full_path).dom().contains(
            shown_as(arrived, full_path, i),
        ),
{
    let session = arrived[i];
    let groups = grouping(arrived);
    let names = choose|names: Seq<Seq<char>>| lists_names(names, groups);
    let ordered = groups_in_order(groups);
    lemma_arrived_in_group(arrived, i);
    let group = groups[session.name@];
    assert(names.contains(session.name@));
    let t = choose|t: int| 0 <= t < names.len() && names[t] == session.name@;
    assert(ordered[t] == group);
    let j = choose|j: int| 0 <= j < group.len() && group[j] == session;
    if group.len() == 1 {
        assert(resolve_group(group)[0] == session@);
        lemma_container_dom(ordered, full_path, t, 0);
    } else {
        let k = group.len() - 1 - j;
        assert(resolve_group(group)[k].session_type == session.session_type);
        lemma_container_dom(ordered, full_path, t, k);
    }
}

/// What the consumer of a feed is to do with an arrival.
#[derive(Debug, Clone, PartialEq, Eq)]
pub enum FeedUpdate {
    /// Nothing yet: the sessions are held back until the feed is closed.
    Hold,
    /// Show this name as well.
    Append(String),
    /// Names that were shown have changed: show these names in place of all that were
    /// shown.
    Replace(Vec<String>),
}

/// The sessions of a scan as they arrive, under the names that the picker shows: a
/// session whose name is taken is told apart from the others of that name, whatever the
/// order in which they arrive. Where the sessions are to be shown by frecency they are
/// held back until all have arrived.
pub struct SessionFeed {
    arrived: Vec<Session>,
    container: SessionMap,
    full_path: bool,
    by_frecency: bool,
}

impl SessionFeed {
    /// The sessions that have arrived, in the order of their arrival.
    pub closed spec fn arrived(&self) -> Seq<Session> {
        self.arrived@
    }

    /// The sessions are shown by their root directories.
    pub closed spec fn full_path(&self) -> bool {
        self.full_path
    }

    /// The sessions are held back until the feed is closed.
    pub closed spec fn by_frecency(&self) -> bool {
        self.by_frecency
    }

    /// The sessions by the names they are shown under.
    pub closed spec fn shown(&self) -> Map<Seq<char>, SessionView> {
        self.container@
    }

    /// The names that are shown, in dictionary order.
    pub closed spec fn shown_names(&self) -> Seq<Seq<char>> {
        self.container.names()
    }

    /// What is shown is what the sessions that have arrived give when they are sorted
    /// into groups by name and each group is told apart.
    pub closed spec fn wf(&self) -> bool {
        &&& self.container.valid()
        &&& self.container@ == container_of(groups_in_order(grouping(self.arrived@)), self.full_path)
        &&& exists|names: Seq<Seq<char>>| lists_names(names, grouping(self.arrived@))
    }

    /// What is shown is what the sessions that have arrived give when they are sorted
    /// into groups by name and each group is told apart; the names that are shown are the
    /// names under which a session is shown, in dictionary order; and every session that
    /// has arrived is shown under its name.
    pub open spec fn shows_arrived(&self) -> bool {
        &&& self.shown() == container_of(
            groups_in_order(grouping(self.arrived())),
            self.full_path(),
        )
        &&& strictly_sorted(self.shown_names())
        &&& forall|name: Seq<char>| #[trigger]
            self.shown_names().contains(name) <==> self.shown().dom().contains(name)
        &&& forall|i: int|
            0 <= i < self.arrived().len() ==> self.shown().dom().contains(
                #[trigger] shown_as(self.arrived(), self.full_path(), i),
            )
    }

    /// A feed that is in order shows what has arrived.
    pub proof fn lemma_shows_arrived(&self)
        requires
            self.wf(),
        ensures
            self.shows_arrived(),
    {
        self.container.lemma_names();
        self.container.lemma_sorted();
        assert forall|i: int| 0 <= i < self.arrived().len() implies self.shown().dom().contains(
            #[trigger] shown_as(self.arrived(), self.full_path(), i),
        ) by {
            lemma_arrivals_are_shown(self.arrived(), self.full_path(), i);
        }
    }

    /// A feed for the given configuration, with nothing arrived.
    pub fn new(config: &Config) -> (feed: SessionFeed)
        ensures
            feed.wf(),
            feed.shows_arrived(),
            feed.arrived() == Seq::<Session>::empty(),
            feed.full_path() == (config.display_full_path == Some(true)),
            feed.by_frecency() == (config.session_sort_order == Some(
                SessionSortOrderConfig::Frecency,
            )),
    {
        let full_path = shows_full_path(config);
        let by_frecency = match config.session_sort_order {
            Some(SessionSortOrderConfig::Frecency) => true,
            _ => false,
        };
        let groups = group_sessions(Vec::new());
        proof {
            groups.lemma_listed();
        }
        let container = container_for(groups.into_groups(), full_path);
        let feed = SessionFeed { arrived: Vec::new(), container, full_path, by_frecency };
        proof {
            feed.lemma_shows_arrived();
        }
        feed
    }

    /// Takes a session that has arrived.
    ///
    /// What is shown afterwards is in any case what all the sessions that have arrived
    /// give. The answer says how to get there: nothing is to be done while sessions are
    /// held back; the names are to be replaced where the arrival shares its name with a
    /// session that had arrived before; else the arrival's name is to be added.
    pub fn offer(&mut self, session: Session) -> (update: FeedUpdate)
        requires
            old(self).wf(),
        ensures
            final(self).wf(),
            final(self).shows_arrived(),
            final(self).arrived() == old(self).arrived().push(session),
            final(self).full_path() == old(self).full_path(),
            final(self).by_frecency() == old(self).by_frecency(),
            match update {
                FeedUpdate::Hold => old(self).by_frecency(),
                FeedUpdate::Append(name) => {
                    &&& !old(self).by_frecency()
                    &&& grouping(final(self).arrived())[session.name@].len() == 1
                    &&& name@ == shown_name(session@, old(self).full_path())
                },
                FeedUpdate::Replace(names) => {
                    &&& !old(self).by_frecency()
                    &&& grouping(final(self).arrived())[session.name@].len() > 1
                    &&& texts(names@) == final(self).shown_names()
                },
            },
    {
        let name = session.visible_name(Some(self.full_path));
        let own = session.name.clone();
        let ghost before = self.arrived@;
        self.arrived.push(session);
        assert(self.arrived@.drop_last() =~= before);
        let groups = group_sessions(copy_sessions(&self.arrived));
        let together = groups.group_len(own.as_str());
        proof {
            groups.lemma_listed();
        }
        self.container = container_for(groups.into_groups(), self.full_path);
        proof {
            self.lemma_shows_arrived();
        }
        if self.by_frecency {
            FeedUpdate::Hold
        } else if together > 1 {
            FeedUpdate::Replace(self.container.list())
        } else {
            FeedUpdate::Append(name)
        }
    }

    /// The names that are shown, in dictionary order.
    pub fn names(&self) -> (names: Vec<String>)
        requires
            self.wf(),
        ensures
            texts(names@) == self.shown_names(),
            self.shows_arrived(),
    {
        proof {
            self.lemma_shows_arrived();
        }
        self.container.list()
    }

    /// For each session that has arrived the name under which it is shown, in the order
    /// of arrival.
    pub fn arrival_names(&self) -> (names: Vec<String>)
        requires
            self.wf(),
        ensures
            texts(names@) == names_by_arrival(self.arrived(), self.full_path()),
    {
        let groups = group_sessions(copy_sessions(&self.arrived));
        let ghost wanted = names_by_arrival(self.arrived@, self.full_path);
        let mut names: Vec<String> = Vec::new();
        let mut i: usize = 0;
        while i < self.arrived.len()
            invariant
                i <= self.arrived.len(),
                groups.valid(),
                groups@ == grouping(self.arrived@),
                wanted == names_by_arrival(self.arrived@, self.full_path),
                texts(names@) =~= wanted.take(i as int),
            decreases self.arrived.len() - i,
        {
            let session = &self.arrived[i];
            let ghost before = texts(names@);
            let name = if self.full_path {
                session.path()
            } else {
                match groups.group(session.name.as_str()) {
                    Some(group) => {
                        if group.len() > 1 {
                            let width = tell_apart(group).0;
                            let path = session.path();
                            string_of(&join_last(&split_components(path.as_str()), width))
                        } else {
                            session.name.clone()
                        }
                    },
                    None => session.name.clone(),
                }
            };
            proof {
                assert(name@ == shown_as(self.arrived@, self.full_path, i as int));
                assert(wanted[i as int] == name@);
            }
            names.push(name);
            proof {
                assert(texts(names@) =~= before.push(name@));
                assert(wanted.take(i + 1) =~= wanted.take(i as int).push(wanted[i as int]));
            }
            i += 1;
        }
        assert(wanted.take(self.arrived.len() as int) =~= wanted);
        names
    }

    /// The session that is shown under `name`.
    pub fn find_session(&self, name: &str) -> (found: Option<&Session>)
        requires
            self.wf(),
        ensures
            match found {
                Some(session) => self.shown().dom().contains(name@) && self.shown()[name@]
                    == session@,
                None => !self.shown().dom().contains(name@),
            },
    {
        proof {
            self.container.lemma_names();
        }
        self.container.find_session(name)
    }

    /// No more sessions arrive. Where the sessions were held back, the names under which
    /// they are shown are now handed out, each once, by falling score: `scores[i]` is the
    /// score of the name of the `i`-th arrival, as `arrival_names` lists them, and names of
    /// equal score come in the order of arrival. Else all names were handed out before,
    /// and none is left.
    pub fn close(&self, scores: &Vec<u64>) -> (names: Vec<String>)
        requires
            self.wf(),
        ensures
            self.shows_arrived(),
            texts(names@) == if self.by_frecency() {
                first_occurrences(
                    ranked(names_by_arrival(self.arrived(), self.full_path()), scores@),
                )
            } else {
                Seq::<Seq<char>>::empty()
            },
            forall|k: int|
                0 <= k < names@.len() ==> self.shown().dom().contains((#[trigger] names@[k])@),
    {
        proof {
            self.lemma_shows_arrived();
        }
        if self.by_frecency {
            let names = first_of_each(&rank_by_score(&self.arrival_names(), scores));
            proof {
                let by_arrival = names_by_arrival(self.arrived(), self.full_path());
                let in_order = ranked(by_arrival, scores@);
                lemma_rank_order(scores@, by_arrival.len());
                crate::text::lemma_first_occurrences(in_order);
                assert forall|k: int| 0 <= k < names@.len() implies self.shown().dom().contains(
                    (#[trigger] names@[k])@,
                ) by {
                    assert(texts(names@)[k] == names@[k]@);
                    assert(first_occurrences(in_order).contains(names@[k]@));
                    assert(in_order.contains(names@[k]@));
                    let r = choose|r: int| 0 <= r < in_order.len() && in_order[r] == names@[k]@;
                    let i = rank_order(scores@, by_arrival.len())[r];
                    assert(by_arrival[i] == shown_as(self.arrived(), self.full_path(), i));
                }
            }
            names
        } else {
            let names: Vec<String> = Vec::new();
            assert(texts(names@) =~= Seq::<Seq<char>>::empty());
            names
        }
    }
}

/// A submodule of a repository, as far as it could be read: its own repository, and
/// the submodules of that.
#[derive(Debug, PartialEq, Eq)]
pub struct Submodule {
    /// The submodule's repository; none where it is not checked out or cannot be opened.
    pub repo: Option<RepoProvider>,
    pub submodules: Vec<Submodule>,
}

/// The name of the session for a submodule whose files lie in a directory named `file`,
/// below the session `parent`.
pub open spec fn submodule_name(parent: Seq<char>, file: Seq<char>) -> Seq<char> {
    parent.push('>') + file
}

/// The container once the submodules `submodules` of the session shown as `parent`
/// have entered it, and whether all of them could be named. They enter in order; the
/// first that cannot be named ends the expansion.
pub open spec fn with_submodules(
    map: Map<Seq<char>, SessionView>,
    submodules: Seq<Submodule>,
    parent: Seq<char>,
    full_path: bool,
    recursive: bool,
) -> (Map<Seq<char>, SessionView>, bool)
    decreases submodules, 1nat,
{
    if submodules.len() == 0 {
        (map, true)
    } else {
        let before = with_submodules(map, submodules.drop_last(), parent, full_path, recursive);
        if !before.1 {
            before
        } else {
            with_submodule(before.0, submodules.last(), parent, full_path, recursive)
        }
    }
}

/// The container once one submodule has entered it, and whether it could be named. A
/// submodule without a repository or without files is passed over. One whose directory
/// has no name cannot be named. Any other enters as a session named after its parent
/// and its directory, behind its own submodules where these are asked for.
pub open spec fn with_submodule(
    map: Map<Seq<char>, SessionView>,
    submodule: Submodule,
    parent: Seq<char>,
    full_path: bool,
    recursive: bool,
) -> (Map<Seq<char>, SessionView>, bool)
    decreases submodule, 0nat,
{
    match submodule.repo {
        None => (map, true),
        Some(repo) => match repo.work_dir_spec() {
            None => (map, true),
            Some(dir) => match base_name_spec(dir) {
                None => (map, false),
                Some(file) => {
                    let session_name = submodule_name(parent, file);
                    let shown = if full_path {
                        dir
                    } else {
                        session_name
                    };
                    let inner = if recursive {
                        with_submodules(map, submodule.submodules@, shown, full_path, recursive)
                    } else {
                        (map, true)
                    };
                    if !inner.1 {
                        inner
                    } else {
                        (
                            inner.0.insert(
                                shown,
                                SessionView {
                                    name: session_name,
                                    session_type: SessionType::Git(Box::new(repo)),
                                },
                            ),
                            true,
                        )
                    }
                },
            },
        },
    }
}

/// Puts the submodules of the session shown as `parent_name` into the container, each as
/// a session of its own: see `with_submodules`. A submodule that cannot be named ends
/// the expansion with a `GitError`; what had entered before stays.
pub fn find_submodules(
    submodules: &Vec<Submodule>,
    parent_name: &str,
    repos: &mut SessionMap,
    config: &Config,
) -> (result: Result<(), TmsError>)
    requires
        old(repos).valid(),
    ensures
        final(repos).valid(),
        final(repos)@ == with_submodules(
            old(repos)@,
            submodules@,
            parent_name@,
            config.display_full_path == Some(true),
            config.recursive_submodules == Some(true),
        ).0,
        result is Ok <==> with_submodules(
            old(repos)@,
            submodules@,
            parent_name@,
            config.display_full_path == Some(true),
            config.recursive_submodules == Some(true),
        ).1,
        result matches Err(error) ==> error == TmsError::GitError,
    decreases submodules,
{
    let ghost full = config.display_full_path == Some(true);
    let ghost recursive = config.recursive_submodules == Some(true);
    let ghost start = repos@;
    let mut i: usize = 0;
    assert(submodules@.take(0) =~= Seq::<Submodule>::empty());
    while i < submodules.len()
        invariant
            i <= submodules.len(),
            repos.valid(),
            start == old(repos)@,
            full == (config.display_full_path == Some(true)),
            recursive == (config.recursive_submodules == Some(true)),
            with_submodules(start, submodules@.take(i as int), parent_name@, full, recursive) == (
                repos@,
                true,
            ),
        decreases submodules.len() - i,
    {
        let ghost before = repos@;
        let submodule = &submodules[i];
        proof {
            assert(submodules@.take(i + 1).drop_last() =~= submodules@.take(i as int));
            assert(submodules@.take(i + 1).last() == submodules@[i as int]);
            assert(with_submodules(start, submodules@.take(i + 1), parent_name@, full, recursive)
                == with_submodule(before, *submodule, parent_name@, full, recursive));
        }
        if let Some(repo) = &submodule.repo {
            if let Some(dir) = repo.work_dir() {
                match base_name(dir) {
                    None => {
                        proof {
                            assert(with_submodule(before, *submodule, parent_name@, full, recursive)
                                == (before, false));
                            lemma_failed_prefix(start, submodules@, i + 1, parent_name@, full, recursive);
                        }
                        return Err(TmsError::GitError);
                    },
                    Some(file) => {
                        let mut session_name = parent_name.to_string();
                        session_name.push('>');
                        session_name.push_str(file.as_str());
                        let shown = if shows_full_path(config) {
                            dir.to_string()
                        } else {
                            session_name.clone()
                        };
                        let recurse = match config.recursive_submodules {
                            Some(true) => true,
                            _ => false,
                        };
                        if recurse {
                            match find_submodules(&submodule.submodules, shown.as_str(), repos, config) {
                                Ok(()) => {},
                                Err(error) => {
                                    proof {
                                        assert(with_submodule(
                                            before,
                                            *submodule,
                                            parent_name@,
                                            full,
                                            recursive,
                                        ) == (repos@, false));
                                        lemma_failed_prefix(start, submodules@, i + 1, parent_name@, full, recursive);
                                    }
                                    return Err(error);
                                },
                            }
                        }
                        let session = Session::new(session_name, SessionType::Git(Box::new(repo.duplicate())));
                        proof {
                            repos.lemma_names();
                        }
                        let ghost inner = repos@;
                        let ghost view = session@;
                        repos.insert_session(shown, session);
                        proof {
                            repos.lemma_names();
                            assert(repos@ =~= inner.insert(shown@, view));
                        }
                    },
                }
            }
        }
        i += 1;
    }
    assert(submodules@.take(submodules.len() as int) =~= submodules@);
    Ok(())
}

proof fn lemma_failed_prefix(
    map: Map<Seq<char>, SessionView>,
    submodules: Seq<Submodule>,
    count: int,
    parent: Seq<char>,
    full_path: bool,
    recursive: bool,
)
    requires
        0 <= count <= submodules.len(),
        !with_submodules(map, submodules.take(count), parent, full_path, recursive).1,
    ensures
        with_submodules(map, submodules, parent, full_path, recursive) == with_submodules(
            map,
            submodules.take(count),
            parent,
            full_path,
            recursive,
        ),
    decreases submodules.len() - count,
{
    if count < submodules.len() {
        assert(submodules.take(count + 1).drop_last() =~= submodules.take(count));
        lemma_failed_prefix(map, submodules, count + 1, parent, full_path, recursive);
    } else {
        assert(submodules.take(count) =~= submodules);
    }
}

/// A step of bringing the user into a session of the multiplexer.
#[derive(Debug, Clone, PartialEq, Eq)]
pub enum TmuxAction {
    /// Create the session `name`, rooted at `path`.
    NewSession { name: String, path: String },
    /// Give the new session `name` the windows that the configuration declares for it.
    SetUpEnv { name: String },
    /// Run the user's script for new sessions, with the directory and the session's name.
    RunCreateScript { path: String, name: String },
    /// Make `name` the session of the client.
    SwitchTo { name: String },
}

impl Session {
    /// The session is that of a repository with checked-out files.
    pub open spec fn has_work_tree(&self) -> bool {
        self.session_type matches SessionType::Git(repo) && !repo.is_bare_spec()
    }

    /// The directory in which a new session of the multiplexer starts: the canonical
    /// directory of the checked-out files for a repository that has some, else the
    /// session's root directory.
    pub open spec fn start_dir(&self, canonical_work_dir: Option<String>) -> Option<Seq<char>> {
        if self.has_work_tree() {
            match canonical_work_dir {
                Some(dir) => Some(dir@),
                None => None,
            }
        } else {
            Some(self.path_spec())
        }
    }

    /// What is to be done to bring the user into this session: a session that exists
    /// is switched to; one that does not is created first, a repository's session being
    /// set up as configured, and the user's script is run for it.
    pub open spec fn switch_plan(&self, session_exists: bool, start: Seq<char>) -> Seq<TmuxStep> {
        let name = session_name_spec(self.name@);
        if session_exists {
            seq![TmuxStep::SwitchTo { name }]
        } else if self.session_type is Git {
            seq![
                TmuxStep::NewSession { name, path: start },
                TmuxStep::SetUpEnv { name },
                TmuxStep::RunCreateScript { path: self.path_spec(), name },
                TmuxStep::SwitchTo { name },
            ]
        } else {
            seq![
                TmuxStep::NewSession { name, path: start },
                TmuxStep::RunCreateScript { path: self.path_spec(), name },
                TmuxStep::SwitchTo { name },
            ]
        }
    }

    /// The steps that bring the user into this session. `canonical_work_dir` is the
    /// canonical path of the repository's checked-out files, where it has some and the
    /// path can be resolved; a repository with files whose path cannot be resolved gives
    /// an `IoError`.
    pub fn switch_to(&self, session_exists: bool, canonical_work_dir: Option<String>) -> (plan: Result<
        Vec<TmuxAction>,
        TmsError,
    >)
        ensures
            match plan {
                Ok(actions) => self.start_dir(canonical_work_dir) matches Some(start)
                    && action_views(actions@) == self.switch_plan(session_exists, start),
                Err(error) => self.start_dir(canonical_work_dir) is None && error
                    == TmsError::IoError,
            },
    {
        let start = match &self.session_type {
            SessionType::Git(repo) => {
                if repo.is_bare() {
                    self.path()
                } else {
                    match canonical_work_dir {
                        Some(dir) => dir,
                        None => {
                            return Err(TmsError::IoError);
                        },
                    }
                }
            },
            _ => self.path(),
        };
        let name = self.session_name();
        let mut actions: Vec<TmuxAction> = Vec::new();
        if !session_exists {
            actions.push(TmuxAction::NewSession { name: name.clone(), path: start });
            if let SessionType::Git(_) = &self.session_type {
                actions.push(TmuxAction::SetUpEnv { name: name.clone() });
            }
            actions.push(TmuxAction::RunCreateScript { path: self.path(), name: name.clone() });
        }
        actions.push(TmuxAction::SwitchTo { name });
        proof {
            assert(action_views(actions@) =~= self.switch_plan(
                session_exists,
                self.start_dir(canonical_work_dir)->0,
            ));
        }
        Ok(actions)
    }
}

/// What a `TmuxAction` stands for, with names and directories as texts.
pub ghost enum TmuxStep {
    NewSession { name: Seq<char>, path: Seq<char> },
    SetUpEnv { name: Seq<char> },
    RunCreateScript { path: Seq<char>, name: Seq<char> },
    SwitchTo { name: Seq<char> },
}

impl View for TmuxAction {
    type V = TmuxStep;

    open spec fn view(&self) -> TmuxStep {
        match self {
            TmuxAction::NewSession { name, path } => TmuxStep::NewSession {
                name: name@,
                path: path@,
            },
            TmuxAction::SetUpEnv { name } => TmuxStep::SetUpEnv { name: name@ },
            TmuxAction::RunCreateScript { path, name } => TmuxStep::RunCreateScript {
                path: path@,
                name: name@,
            },
            TmuxAction::SwitchTo { name } => TmuxStep::SwitchTo { name: name@ },
        }
    }
}

/// What the actions of a list stand for, in order.
pub open spec fn action_views(actions: Seq<TmuxAction>) -> Seq<TmuxStep> {
    actions.map_values(|action: TmuxAction| action@)
}

} // verus!
