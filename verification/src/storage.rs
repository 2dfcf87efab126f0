//! Reading stored games back.
//!
//! Each record is a `{ "v": <u32>, "data": <game> }` envelope, where `v` is the
//! schema version of `data`. Records without the envelope (the game alone) have
//! no `v` and are read as they are. Versioning every record lets later versions
//! be migrated one by one, without a big-bang migration of the database.

use vstd::prelude::*;
use vstd::string::*;
use crate::game::Game;
use crate::text::{decimal, plus, plus_number};
use crate::werewolf::WolfGame;

verus! {

/// Latest schema version of poker records.
pub const POKER_SCHEMA_VERSION: u32 = 1;

/// Latest schema version of werewolf records.
pub const WOLF_SCHEMA_VERSION: u32 = 1;

/// Why a record cannot be read.
#[derive(Debug, Clone, Copy, PartialEq, Eq, Structural)]
pub enum RecordError {
    /// The envelope holds no data.
    NoPokerData,
    NoWolfData,
    /// The record was written by a later version.
    NewerPoker(u32),
    NewerWolf(u32),
    /// The record is neither an envelope nor a game alone.
    UnreadablePoker,
    UnreadableWolf,
}

impl RecordError {
    pub open spec fn text(self) -> Seq<char> {
        match self {
            RecordError::NoPokerData => "envelope missing data field for poker record"@,
            RecordError::NoWolfData => "envelope missing data field for wolf record"@,
            RecordError::NewerPoker(v) => "poker record schema v"@ + decimal(v as nat) + " is newer than this binary's v"@
                + decimal(POKER_SCHEMA_VERSION as nat) + " — refuse to read forward-incompatible state"@,
            RecordError::NewerWolf(v) => "wolf record schema v"@ + decimal(v as nat) + " is newer than this binary's v"@
                + decimal(WOLF_SCHEMA_VERSION as nat),
            RecordError::UnreadablePoker => "failed both envelope and legacy deserialise for poker record"@,
            RecordError::UnreadableWolf => "failed both envelope and legacy deserialise for wolf record"@,
        }
    }

    pub fn message(&self) -> (r: String)
        ensures
            r@ == self.text(),
    {
        match self {
            RecordError::NoPokerData => "envelope missing data field for poker record".to_owned(),
            RecordError::NoWolfData => "envelope missing data field for wolf record".to_owned(),
            RecordError::NewerPoker(v) => {
                let s = plus_number("poker record schema v".to_owned(), *v as u64);
                let s = plus_number(plus(s, " is newer than this binary's v"), POKER_SCHEMA_VERSION as u64);
                plus(s, " — refuse to read forward-incompatible state")
            },
            RecordError::NewerWolf(v) => {
                let s = plus_number("wolf record schema v".to_owned(), *v as u64);
                plus_number(plus(s, " is newer than this binary's v"), WOLF_SCHEMA_VERSION as u64)
            },
            RecordError::UnreadablePoker => "failed both envelope and legacy deserialise for poker record".to_owned(),
            RecordError::UnreadableWolf => "failed both envelope and legacy deserialise for wolf record".to_owned(),
        }
    }
}

/// What an envelope was read as: its version and its data, as far as they are
/// there.
#[derive(Debug)]
pub struct EnvelopeOwned<T> {
    pub v: Option<u32>,
    pub data: Option<T>,
}

/// A record of the store: the chat it is of, what it is as an envelope, if it is
/// one, and what it is as a game alone, if it is one.
#[derive(Debug)]
pub struct Record<T> {
    pub chat_id: String,
    pub envelope: Option<EnvelopeOwned<T>>,
    pub bare: Option<T>,
}

/// The games that were read, and the records that could not be, with their
/// chats.
#[derive(Debug)]
pub struct Loaded<T> {
    pub games: Vec<(String, T)>,
    pub skipped: Vec<(String, RecordError)>,
}

pub open spec fn games_view<T>(games: Seq<(String, T)>) -> Seq<(Seq<char>, T)> {
    games.map_values(|g: (String, T)| (g.0@, g.1))
}

pub open spec fn skipped_view(skipped: Seq<(String, RecordError)>) -> Seq<(Seq<char>, RecordError)> {
    skipped.map_values(|s: (String, RecordError)| (s.0@, s.1))
}

/// The game in a record, or why there is none. A record with a version is an
/// envelope, and one of a later version is refused; any other is a game alone.
pub open spec fn poker_in(envelope: Option<EnvelopeOwned<Game>>, bare: Option<Game>) -> Result<Game, RecordError> {
    match envelope {
        Some(EnvelopeOwned { v: Some(version), data: None }) => Err(RecordError::NoPokerData),
        Some(EnvelopeOwned { v: Some(version), data: Some(g) }) => if version > POKER_SCHEMA_VERSION {
            Err(RecordError::NewerPoker(version))
        } else {
            Ok(g)
        },
        _ => match bare {
            Some(g) => Ok(g),
            None => Err(RecordError::UnreadablePoker),
        },
    }
}

/// Same as [`poker_in`] for the werewolf game.
pub open spec fn wolf_in(envelope: Option<EnvelopeOwned<WolfGame>>, bare: Option<WolfGame>) -> Result<WolfGame, RecordError> {
    match envelope {
        Some(EnvelopeOwned { v: Some(version), data: None }) => Err(RecordError::NoWolfData),
        Some(EnvelopeOwned { v: Some(version), data: Some(g) }) => if version > WOLF_SCHEMA_VERSION {
            Err(RecordError::NewerWolf(version))
        } else {
            Ok(g)
        },
        _ => match bare {
            Some(g) => Ok(g),
            None => Err(RecordError::UnreadableWolf),
        },
    }
}

/// What is read from records, the last of them first; `read` says what each
/// holds.
pub open spec fn games_in<T>(records: Seq<Record<T>>, read: spec_fn(Record<T>) -> Result<T, RecordError>) -> Seq<
    (Seq<char>, T),
>
    decreases records.len(),
{
    if records.len() == 0 {
        Seq::empty()
    } else {
        (match read(records.last()) {
            Ok(g) => seq![(records.last().chat_id@, g)],
            Err(e) => Seq::empty(),
        }) + games_in(records.drop_last(), read)
    }
}

/// What cannot be read of records, the last of them first.
pub open spec fn skipped_in<T>(records: Seq<Record<T>>, read: spec_fn(Record<T>) -> Result<T, RecordError>) -> Seq<
    (Seq<char>, RecordError),
>
    decreases records.len(),
{
    if records.len() == 0 {
        Seq::empty()
    } else {
        (match read(records.last()) {
            Ok(g) => Seq::empty(),
            Err(e) => seq![(records.last().chat_id@, e)],
        }) + skipped_in(records.drop_last(), read)
    }
}

pub open spec fn poker_reader() -> spec_fn(Record<Game>) -> Result<Game, RecordError> {
    |r: Record<Game>| poker_in(r.envelope, r.bare)
}

pub open spec fn wolf_reader() -> spec_fn(Record<WolfGame>) -> Result<WolfGame, RecordError> {
    |r: Record<WolfGame>| wolf_in(r.envelope, r.bare)
}

/// Whether the `k`-th record holds the game, and is of the chat.
spec fn comes_from<T>(
    records: Seq<Record<T>>,
    read: spec_fn(Record<T>) -> Result<T, RecordError>,
    k: int,
    x: (Seq<char>, T),
) -> bool {
    0 <= k < records.len() && read(records[k]) == Ok::<T, RecordError>(x.1) && x.0 == records[k].chat_id@
}

spec fn has_source<T>(
    records: Seq<Record<T>>,
    read: spec_fn(Record<T>) -> Result<T, RecordError>,
    x: (Seq<char>, T),
) -> bool {
    exists|k: int| comes_from(records, read, k, x)
}

proof fn games_in_facts<T>(records: Seq<Record<T>>, read: spec_fn(Record<T>) -> Result<T, RecordError>)
    ensures
        forall|k: int| #![trigger records[k]] 0 <= k < records.len() ==> (read(records[k]) matches Ok(g) ==> games_in(
            records,
            read,
        ).contains((records[k].chat_id@, g))),
        forall|i: int| 0 <= i < games_in(records, read).len() ==> has_source(records, read, #[trigger] games_in(records, read)[i]),
    decreases records.len(),
{
    if records.len() > 0 {
        let rest = records.drop_last();
        games_in_facts(rest, read);
        let all = games_in(records, read);
        let more = games_in(rest, read);
        let n: int = all.len() - more.len();
        assert(records.last() == records[records.len() - 1]);
        assert forall|k: int| #![trigger records[k]] 0 <= k < records.len() implies (read(records[k]) matches Ok(g)
            ==> all.contains((records[k].chat_id@, g))) by {
            if read(records[k]) is Ok {
                let g = read(records[k])->Ok_0;
                if k < rest.len() {
                    assert(rest[k] == records[k]);
                    assert(more.contains((rest[k].chat_id@, g)));
                    let j = choose|j: int| 0 <= j < more.len() && more[j] == (rest[k].chat_id@, g);
                    assert(all[j + n] == more[j]);
                } else {
                    assert(all[0] == (records[k].chat_id@, g));
                }
            }
        }
        assert forall|i: int| 0 <= i < all.len() implies has_source(records, read, #[trigger] all[i]) by {
            if i >= n {
                let x = more[i - n];
                assert(all[i] == x);
                let k = choose|k: int| comes_from(rest, read, k, x);
                assert(comes_from(records, read, k, all[i]));
            } else {
                assert(comes_from(records, read, records.len() - 1, all[i]));
            }
        }
    }
}

/// What the store gives back of a chat is what the chat's record holds, whatever
/// the other records are: the game of a record that can be read, and nothing of
/// one that cannot.
pub proof fn each_record_stands_alone<T>(
    records: Seq<Record<T>>,
    read: spec_fn(Record<T>) -> Result<T, RecordError>,
    k: int,
)
    requires
        0 <= k < records.len(),
        forall|i: int, j: int| 0 <= i < j < records.len() ==> (#[trigger] records[i]).chat_id@ != (#[trigger] records[j]).chat_id@,
    ensures
        match read(records[k]) {
            Ok(g) => games_in(records, read).contains((records[k].chat_id@, g)) && forall|h: T|
                #[trigger] games_in(records, read).contains((records[k].chat_id@, h)) ==> h == g,
            Err(e) => forall|h: T| !#[trigger] games_in(records, read).contains((records[k].chat_id@, h)),
        },
{
    let all = games_in(records, read);
    games_in_facts(records, read);
    assert forall|h: T| #[trigger] all.contains((records[k].chat_id@, h)) implies read(records[k]) == Ok::<T, RecordError>(h) by {
        let i = choose|i: int| 0 <= i < all.len() && all[i] == (records[k].chat_id@, h);
        let x = all[i];
        let l = choose|l: int| comes_from(records, read, l, x);
        if l < k {
            assert(records[l].chat_id@ != records[k].chat_id@);
        } else if k < l {
            assert(records[k].chat_id@ != records[l].chat_id@);
        }
    }
}

/// A game in an envelope of the current version is read as it was put there, and
/// so is a game alone; an envelope of a later version is refused.
pub proof fn what_is_stored_is_read(
    g: Game,
    w: WolfGame,
    later: u32,
    data: Option<Game>,
    wolf_data: Option<WolfGame>,
    bare: Option<Game>,
    wolf_bare: Option<WolfGame>,
)
    ensures
        poker_in(Some(EnvelopeOwned { v: Some(POKER_SCHEMA_VERSION), data: Some(g) }), bare) == Ok::<Game, RecordError>(g),
        poker_in(None, Some(g)) == Ok::<Game, RecordError>(g),
        poker_in(Some(EnvelopeOwned { v: None, data }), Some(g)) == Ok::<Game, RecordError>(g),
        later > POKER_SCHEMA_VERSION ==> poker_in(Some(EnvelopeOwned { v: Some(later), data }), bare) is Err,
        wolf_in(Some(EnvelopeOwned { v: Some(WOLF_SCHEMA_VERSION), data: Some(w) }), wolf_bare) == Ok::<WolfGame, RecordError>(w),
        wolf_in(None, Some(w)) == Ok::<WolfGame, RecordError>(w),
        wolf_in(Some(EnvelopeOwned { v: None, data: wolf_data }), Some(w)) == Ok::<WolfGame, RecordError>(w),
        later > WOLF_SCHEMA_VERSION ==> wolf_in(Some(EnvelopeOwned { v: Some(later), data: wolf_data }), wolf_bare) is Err,
{
}

/// A record with a version is read exactly when it has data and is of no later version;
/// a record without one is read as the game alone that it is.
pub proof fn which_records_are_read(
    version: Option<u32>,
    data: Option<Game>,
    bare: Option<Game>,
    wolf_data: Option<WolfGame>,
    wolf_bare: Option<WolfGame>,
)
    ensures
        ({
            let r = poker_in(Some(EnvelopeOwned { v: version, data }), bare);
            &&& version is Some ==> (r is Ok <==> data is Some && version->0 <= POKER_SCHEMA_VERSION)
            &&& version is Some && r is Ok ==> r->Ok_0 == data->0
            &&& version is Some && data is None ==> r == Err::<Game, RecordError>(RecordError::NoPokerData)
            &&& version is Some && data is Some && r is Err ==> r == Err::<Game, RecordError>(RecordError::NewerPoker(version->0))
            &&& version is None ==> r == poker_in(None, bare)
        }),
        poker_in(None, bare) is Ok <==> bare is Some,
        bare is None ==> poker_in(None, bare) == Err::<Game, RecordError>(RecordError::UnreadablePoker),
        ({
            let r = wolf_in(Some(EnvelopeOwned { v: version, data: wolf_data }), wolf_bare);
            &&& version is Some ==> (r is Ok <==> wolf_data is Some && version->0 <= WOLF_SCHEMA_VERSION)
            &&& version is Some && r is Ok ==> r->Ok_0 == wolf_data->0
            &&& version is Some && wolf_data is None ==> r == Err::<WolfGame, RecordError>(RecordError::NoWolfData)
            &&& version is Some && wolf_data is Some && r is Err ==> r == Err::<WolfGame, RecordError>(RecordError::NewerWolf(version->0))
            &&& version is None ==> r == wolf_in(None, wolf_bare)
        }),
        wolf_in(None, wolf_bare) is Ok <==> wolf_bare is Some,
        wolf_bare is None ==> wolf_in(None, wolf_bare) == Err::<WolfGame, RecordError>(RecordError::UnreadableWolf),
{
}

/// A record is told of as skipped exactly when it cannot be read, with the reason.
pub proof fn what_is_skipped_is_told<T>(records: Seq<Record<T>>, read: spec_fn(Record<T>) -> Result<T, RecordError>)
    ensures
        games_in(records, read).len() + skipped_in(records, read).len() == records.len(),
        forall|k: int| 0 <= k < records.len() ==> (read(#[trigger] records[k]) matches Err(e) ==> skipped_in(records, read).contains(
            (records[k].chat_id@, e),
        )),
    decreases records.len(),
{
    if records.len() > 0 {
        let rest = records.drop_last();
        what_is_skipped_is_told(rest, read);
        let all = skipped_in(records, read);
        let tail = skipped_in(rest, read);
        assert forall|k: int| 0 <= k < records.len() && read(#[trigger] records[k]) is Err implies all.contains(
            (records[k].chat_id@, read(records[k])->Err_0),
        ) by {
            let x = (records[k].chat_id@, read(records[k])->Err_0);
            if k < rest.len() {
                assert(rest[k] == records[k]);
                assert(tail.contains(x));
                let j = choose|j: int| 0 <= j < tail.len() && tail[j] == x;
                assert(all[all.len() - tail.len() + j] == x);
            } else {
                assert(all[0] == x);
            }
        }
    }
}

/// Bring a stored game up to the current schema. There is only one version yet,
/// and what is older is taken as it is; what is newer is refused.
pub fn migrate_poker(version: u32, data: Option<Game>) -> (r: Result<Game, RecordError>)
    ensures
        r == (match data {
            None => Err(RecordError::NoPokerData),
            Some(g) => if version > POKER_SCHEMA_VERSION {
                Err(RecordError::NewerPoker(version))
            } else {
                Ok(g)
            },
        }),
{
    match data {
        None => Err(RecordError::NoPokerData),
        Some(g) => if version > POKER_SCHEMA_VERSION {
            Err(RecordError::NewerPoker(version))
        } else {
            Ok(g)
        },
    }
}

/// Same as [`migrate_poker`] for the werewolf game.
pub fn migrate_wolf(version: u32, data: Option<WolfGame>) -> (r: Result<WolfGame, RecordError>)
    ensures
        r == (match data {
            None => Err(RecordError::NoWolfData),
            Some(g) => if version > WOLF_SCHEMA_VERSION {
                Err(RecordError::NewerWolf(version))
            } else {
                Ok(g)
            },
        }),
{
    match data {
        None => Err(RecordError::NoWolfData),
        Some(g) => if version > WOLF_SCHEMA_VERSION {
            Err(RecordError::NewerWolf(version))
        } else {
            Ok(g)
        },
    }
}

/// The game in a record: `envelope` is what the record is as an envelope, if it
/// is one; `bare` is what it is as a game alone, if it is one. A record with a
/// version is an envelope; any other is a game alone.
pub fn decode_poker(envelope: Option<EnvelopeOwned<Game>>, bare: Option<Game>) -> (r: Result<Game, RecordError>)
    ensures
        r == poker_in(envelope, bare),
{
    if let Some(env) = envelope {
        if let Some(version) = env.v {
            return migrate_poker(version, env.data);
        }
    }
    match bare {
        Some(g) => Ok(g),
        None => Err(RecordError::UnreadablePoker),
    }
}

/// Same as [`decode_poker`] for the werewolf game.
pub fn decode_wolf(envelope: Option<EnvelopeOwned<WolfGame>>, bare: Option<WolfGame>) -> (r: Result<WolfGame, RecordError>)
    ensures
        r == wolf_in(envelope, bare),
{
    if let Some(env) = envelope {
        if let Some(version) = env.v {
            return migrate_wolf(version, env.data);
        }
    }
    match bare {
        Some(g) => Ok(g),
        None => Err(RecordError::UnreadableWolf),
    }
}

/// Read all records. Those that cannot be read are set aside and keep no other
/// from being read.
pub fn load_poker(records: Vec<Record<Game>>) -> (r: Loaded<Game>)
    ensures
        games_view(r.games@) == games_in(records@, poker_reader()),
        skipped_view(r.skipped@) == skipped_in(records@, poker_reader()),
{
    let ghost all = records@;
    let mut records = records;
    let mut games: Vec<(String, Game)> = Vec::new();
    let mut skipped: Vec<(String, RecordError)> = Vec::new();
    assert(games_view(games@) + games_in(all, poker_reader()) =~= games_in(all, poker_reader()));
    assert(skipped_view(skipped@) + skipped_in(all, poker_reader()) =~= skipped_in(all, poker_reader()));
    while records.len() > 0
        invariant
            games_view(games@) + games_in(records@, poker_reader()) == games_in(all, poker_reader()),
            skipped_view(skipped@) + skipped_in(records@, poker_reader()) == skipped_in(all, poker_reader()),
        decreases records@.len(),
    {
        let ghost games_before = games_view(games@);
        let ghost skipped_before = skipped_view(skipped@);
        let ghost before = records@;
        let last = records.len() - 1;
        let record = records.remove(last);
        assert(before.drop_last() =~= records@);
        assert(poker_reader()(record) == poker_in(record.envelope, record.bare));
        let Record { chat_id, envelope, bare } = record;
        match decode_poker(envelope, bare) {
            Ok(g) => {
                games.push((chat_id, g));
                assert(games_view(games@) =~= games_before.push((chat_id@, g)));
            },
            Err(e) => {
                skipped.push((chat_id, e));
                assert(skipped_view(skipped@) =~= skipped_before.push((chat_id@, e)));
            },
        }
        assert(games_view(games@) + games_in(records@, poker_reader()) =~= games_before + games_in(before, poker_reader()));
        assert(skipped_view(skipped@) + skipped_in(records@, poker_reader()) =~= skipped_before + skipped_in(before, poker_reader()));
    }
    assert(games_view(games@) + games_in(records@, poker_reader()) =~= games_view(games@));
    assert(skipped_view(skipped@) + skipped_in(records@, poker_reader()) =~= skipped_view(skipped@));
    Loaded { games, skipped }
}

/// Same as [`load_poker`] for the werewolf game.
pub fn load_wolf(records: Vec<Record<WolfGame>>) -> (r: Loaded<WolfGame>)
    ensures
        games_view(r.games@) == games_in(records@, wolf_reader()),
        skipped_view(r.skipped@) == skipped_in(records@, wolf_reader()),
{
    let ghost all = records@;
    let mut records = records;
    let mut games: Vec<(String, WolfGame)> = Vec::new();
    let mut skipped: Vec<(String, RecordError)> = Vec::new();
    assert(games_view(games@) + games_in(all, wolf_reader()) =~= games_in(all, wolf_reader()));
    assert(skipped_view(skipped@) + skipped_in(all, wolf_reader()) =~= skipped_in(all, wolf_reader()));
    while records.len() > 0
        invariant
            games_view(games@) + games_in(records@, wolf_reader()) == games_in(all, wolf_reader()),
            skipped_view(skipped@) + skipped_in(records@, wolf_reader()) == skipped_in(all, wolf_reader()),
        decreases records@.len(),
    {
        let ghost games_before = games_view(games@);
        let ghost skipped_before = skipped_view(skipped@);
        let ghost before = records@;
        let last = records.len() - 1;
        let record = records.remove(last);
        assert(before.drop_last() =~= records@);
        assert(wolf_reader()(record) == wolf_in(record.envelope, record.bare));
        let Record { chat_id, envelope, bare } = record;
        match decode_wolf(envelope, bare) {
            Ok(g) => {
                games.push((chat_id, g));
                assert(games_view(games@) =~= games_before.push((chat_id@, g)));
            },
            Err(e) => {
                skipped.push((chat_id, e));
                assert(skipped_view(skipped@) =~= skipped_before.push((chat_id@, e)));
            },
        }
        assert(games_view(games@) + games_in(records@, wolf_reader()) =~= games_before + games_in(before, wolf_reader()));
        assert(skipped_view(skipped@) + skipped_in(records@, wolf_reader()) =~= skipped_before + skipped_in(before, wolf_reader()));
    }
    assert(games_view(games@) + games_in(records@, wolf_reader()) =~= games_view(games@));
    assert(skipped_view(skipped@) + skipped_in(records@, wolf_reader()) =~= skipped_view(skipped@));
    Loaded { games, skipped }
}

} // verus!
