//! The names of players, lobbies and games.

use crate::table::Key;
use crate::text;
use vstd::prelude::*;
use vstd::string::*;

verus! {

/// The number that a player or a lobby goes by.
pub type BasicId = u64;

/// How many bytes a game ID may take.
pub const GAME_ID_MAX: usize = 63;

/// The name of a game.
#[derive(Debug, PartialEq, Eq, Hash)]
pub struct GameId(pub String);

/// The characters that a game ID may hold: ASCII letters and digits, `-`, `_`, `.` and the space.
pub open spec fn gid_char(c: char) -> bool {
    ||| 'a' <= c <= 'z'
    ||| 'A' <= c <= 'Z'
    ||| '0' <= c <= '9'
    ||| c == '-'
    ||| c == '_'
    ||| c == '.'
    ||| c == ' '
}

/// A game ID is nonempty and not too long.
pub open spec fn gid_sized(s: Seq<char>) -> bool {
    s.len() > 0 && text::byte_len(s) <= GAME_ID_MAX
}

/// What a game ID may say.
pub open spec fn valid_gid(s: Seq<char>) -> bool {
    gid_sized(s) && forall|i: int| 0 <= i < s.len() ==> gid_char(#[trigger] s[i])
}

fn is_gid_char(c: char) -> (r: bool)
    ensures
        r == gid_char(c),
{
    ('a' <= c && c <= 'z') || ('A' <= c && c <= 'Z') || ('0' <= c && c <= '9') || c == '-' || c
        == '_' || c == '.' || c == ' '
}

fn all_gid_chars(s: &str) -> (r: bool)
    ensures
        r == forall|i: int| 0 <= i < s@.len() ==> gid_char(#[trigger] s@[i]),
{
    let n: usize = s.unicode_len();
    let mut i: usize = 0;
    while i < n
        invariant
            i <= n,
            n == s@.len(),
            forall|j: int| 0 <= j < i ==> gid_char(#[trigger] s@[j]),
        decreases n - i,
    {
        if !is_gid_char(s.get_char(i)) {
            return false;
        }
        i = i + 1;
    }
    true
}

/// Accepts a game ID as it came off the wire, or says what is wrong with it.
pub fn validate_gid(gid: String) -> (r: Result<String, String>)
    ensures
        r is Ok <==> valid_gid(gid@),
        r matches Ok(s) ==> s@ == gid@,
        r matches Err(e) ==> e@ == if gid_sized(gid@) {
            "game ID must be alphanumeric"@
        } else {
            "game ID must be nonempty, up to 63 bytes"@
        },
{
    if gid.as_str().is_empty() || text::bytes_in(gid.as_str()) > GAME_ID_MAX {
        return Err("game ID must be nonempty, up to 63 bytes".to_owned());
    }
    if !all_gid_chars(gid.as_str()) {
        return Err("game ID must be alphanumeric".to_owned());
    }
    Ok(gid)
}

/// A game is named by a text of 1 to 63 bytes, of ASCII letters, digits, hyphens, underscores, dots
/// and spaces.
pub proof fn law_game_names(s: Seq<char>)
    ensures
        valid_gid(s) <==> s.len() >= 1 && text::byte_len(s) <= 63 && forall|i: int|
            0 <= i < s.len() ==> {
                let code = (#[trigger] s[i]) as u32;
                48 <= code <= 57 || 65 <= code <= 90 || 97 <= code <= 122 || code == 32 || code
                    == 45 || code == 46 || code == 95
            },
        gid_sized(s) <==> s.len() >= 1 && text::byte_len(s) <= 63,
{
    assert forall|i: int| 0 <= i < s.len() implies (gid_char(#[trigger] s[i]) <==> {
        let code = s[i] as u32;
        48 <= code <= 57 || 65 <= code <= 90 || 97 <= code <= 122 || code == 32 || code == 45
            || code == 46 || code == 95
    }) by {
        lemma_gid_char(s[i]);
    }
}

/// The characters of a game ID by their codes.
proof fn lemma_gid_char(c: char)
    ensures
        gid_char(c) <==> {
            let code = c as u32;
            48 <= code <= 57 || 65 <= code <= 90 || 97 <= code <= 122 || code == 32 || code == 45
                || code == 46 || code == 95
        },
{
}

/// A set of numbers into which one was put holds that one and those that it held, these in their
/// order before it if it is new.
pub proof fn law_putting_in(ids: Seq<BasicId>, id: BasicId, k: BasicId)
    ensures
        with_id(ids, id).contains(k) <==> ids.contains(k) || k == id,
        with_id(ids, id).len() == if ids.contains(id) {
            ids.len()
        } else {
            ids.len() + 1
        },
        forall|i: int| 0 <= i < ids.len() ==> #[trigger] with_id(ids, id)[i] == ids[i],
{
    let more = with_id(ids, id);
    if ids.contains(k) {
        let i = choose|i: int| 0 <= i < ids.len() && ids[i] == k;
        assert(more[i] == k);
    }
    if k == id && !ids.contains(id) {
        assert(more[ids.len() as int] == k);
    }
}

impl View for GameId {
    type V = Seq<char>;

    open spec fn view(&self) -> Seq<char> {
        self.0@
    }
}

impl Clone for GameId {
    fn clone(&self) -> (r: Self)
        ensures
            r == *self,
    {
        GameId(self.0.clone())
    }
}

impl Key for GameId {
    fn same(&self, other: &Self) -> (b: bool) {
        self.0 == other.0
    }
}

impl GameId {
    pub fn as_str(&self) -> (s: &str)
        ensures
            s@ == self@,
    {
        self.0.as_str()
    }

    /// Whether the name is one that [`validate_gid`] accepts.
    pub fn valid(&self) -> (r: bool)
        ensures
            r == valid_gid(self@),
    {
        !self.0.as_str().is_empty() && text::bytes_in(self.0.as_str()) <= GAME_ID_MAX
            && all_gid_chars(self.0.as_str())
    }
}

/// A lobby's name: its number, and the game it belongs to.
#[derive(Debug, PartialEq, Eq, Hash)]
pub struct LobbyId {
    pub lid: BasicId,
    pub gid: GameId,
}

/// What a [`LobbyId`] says.
pub struct LobbyKey {
    pub lid: BasicId,
    pub gid: Seq<char>,
}

impl View for LobbyId {
    type V = LobbyKey;

    open spec fn view(&self) -> LobbyKey {
        LobbyKey { lid: self.lid, gid: self.gid@ }
    }
}

impl Clone for LobbyId {
    fn clone(&self) -> (r: Self)
        ensures
            r == *self,
    {
        LobbyId { lid: self.lid, gid: self.gid.clone() }
    }
}

impl Key for LobbyId {
    fn same(&self, other: &Self) -> (b: bool) {
        self.lid == other.lid && self.gid.same(&other.gid)
    }
}

impl LobbyId {
    /// Whether the game's name is one that [`validate_gid`] accepts.
    pub fn valid(&self) -> (r: bool)
        ensures
            r == valid_gid(self@.gid),
    {
        self.gid.valid()
    }
}

/// The address that a session comes from.
#[derive(Debug, Clone, Copy, PartialEq, Eq, Structural)]
pub enum IpAddr {
    V4(u32),
    V6(u128),
}

impl View for IpAddr {
    type V = IpAddr;

    open spec fn view(&self) -> IpAddr {
        *self
    }
}

impl Key for IpAddr {
    fn same(&self, other: &Self) -> (b: bool) {
        *self == *other
    }
}

/// A set of numbers, kept in the order in which they came in.
pub struct IdSet {
    pub ids: Vec<BasicId>,
}

/// `ids` with `id` in it: at the end, if it was not there.
pub open spec fn with_id(ids: Seq<BasicId>, id: BasicId) -> Seq<BasicId> {
    if ids.contains(id) {
        ids
    } else {
        ids.push(id)
    }
}

/// The numbers other than `id`.
pub open spec fn other_than(id: BasicId) -> spec_fn(BasicId) -> bool {
    |i: BasicId| i != id
}

/// `ids` without `id`.
pub open spec fn without_id(ids: Seq<BasicId>, id: BasicId) -> Seq<BasicId> {
    ids.filter(other_than(id))
}

/// What a set of numbers holds once one of them has been taken out.
pub proof fn lemma_without_id(ids: Seq<BasicId>, id: BasicId)
    requires
        ids.no_duplicates(),
    ensures
        without_id(ids, id).no_duplicates(),
        forall|k: BasicId| #[trigger]
            without_id(ids, id).contains(k) <==> ids.contains(k) && k != id,
        without_id(ids, id).len() == if ids.contains(id) {
            ids.len() - 1
        } else {
            ids.len() as int
        },
    decreases ids.len(),
{
    reveal(Seq::filter);
    let left = without_id(ids, id);
    if ids.len() > 0 {
        let shorter = ids.drop_last();
        let rest = without_id(shorter, id);
        lemma_without_id(shorter, id);
        let last = ids.last();
        assert(ids =~= shorter.push(last));
        assert(!shorter.contains(last)) by {
            if shorter.contains(last) {
                let k = choose|k: int| 0 <= k < shorter.len() && shorter[k] == last;
                assert(ids[k] == ids[ids.len() - 1]);
            }
        }
        assert forall|k: BasicId| #[trigger] ids.contains(k) <==> shorter.contains(k) || k == last by {
            if shorter.contains(k) {
                let i = choose|i: int| 0 <= i < shorter.len() && shorter[i] == k;
                assert(ids[i] == k);
            }
            if k == last {
                assert(ids[ids.len() - 1] == k);
            }
        }
        if last != id {
            assert(left == rest.push(last));
            assert(!rest.contains(last));
            assert forall|k: BasicId| #[trigger] left.contains(k) <==> rest.contains(k) || k
                == last by {
                if rest.contains(k) {
                    let i = choose|i: int| 0 <= i < rest.len() && rest[i] == k;
                    assert(left[i] == k);
                }
                if k == last {
                    assert(left[left.len() - 1] == k);
                }
            }
            assert(left.no_duplicates());
        } else {
            assert(left == rest);
        }
    }
}

/// What a set of numbers holds once one more has been put in.
pub proof fn lemma_with_id(ids: Seq<BasicId>, id: BasicId)
    requires
        ids.no_duplicates(),
    ensures
        with_id(ids, id).no_duplicates(),
        forall|k: BasicId| #[trigger] with_id(ids, id).contains(k) <==> ids.contains(k) || k == id,
{
    let more = with_id(ids, id);
    assert forall|k: BasicId| #[trigger] more.contains(k) <==> ids.contains(k) || k == id by {
        if ids.contains(k) {
            let i = choose|i: int| 0 <= i < ids.len() && ids[i] == k;
            assert(more[i] == k);
        }
        if k == id && !ids.contains(id) {
            assert(more[ids.len() as int] == k);
        }
    }
}

impl View for IdSet {
    type V = Seq<BasicId>;

    open spec fn view(&self) -> Seq<BasicId> {
        self.ids@
    }
}

impl Clone for IdSet {
    fn clone(&self) -> (r: Self)
        ensures
            r@ == self@,
    {
        IdSet { ids: self.ids.clone() }
    }
}

impl IdSet {
    /// No number occurs twice.
    pub open spec fn wf(&self) -> bool {
        self@.no_duplicates()
    }

    pub fn new() -> (s: Self)
        ensures
            s.wf(),
            s@ == Seq::<BasicId>::empty(),
    {
        IdSet { ids: Vec::new() }
    }

    pub fn contains(&self, id: BasicId) -> (r: bool)
        ensures
            r == self@.contains(id),
    {
        let mut i: usize = 0;
        while i < self.ids.len()
            invariant
                i <= self@.len(),
                forall|j: int| 0 <= j < i ==> #[trigger] self@[j] != id,
            decreases self@.len() - i,
        {
            if self.ids[i] == id {
                return true;
            }
            i = i + 1;
        }
        false
    }

    pub fn insert(&mut self, id: BasicId)
        requires
            old(self).wf(),
        ensures
            final(self).wf(),
            final(self)@ == with_id(old(self)@, id),
    {
        proof {
            lemma_with_id(self@, id);
        }
        if !self.contains(id) {
            self.ids.push(id);
        }
    }

    pub fn remove(&mut self, id: BasicId)
        requires
            old(self).wf(),
        ensures
            final(self).wf(),
            final(self)@ == without_id(old(self)@, id),
    {
        proof {
            lemma_without_id(self@, id);
        }
        let ghost all = self@;
        let mut kept: Vec<BasicId> = Vec::new();
        let mut i: usize = 0;
        while i < self.ids.len()
            invariant
                i <= all.len(),
                self@ == all,
                kept@ == without_id(all.take(i as int), id),
            decreases all.len() - i,
        {
            proof {
                assert(all.take(i + 1).drop_last() =~= all.take(i as int));
                reveal(Seq::filter);
            }
            if self.ids[i] != id {
                kept.push(self.ids[i]);
            }
            i = i + 1;
        }
        assert(all.take(i as int) =~= all);
        self.ids = kept;
    }
}

} // verus!
