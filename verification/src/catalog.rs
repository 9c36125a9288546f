//! The show catalog: frames by name and shows by hotkey, checked when it is built.

use vstd::prelude::*;

use crate::patterns::{Packet, DARK, PACKET_LEN};
use crate::text::{decimal, push_char, push_decimal};
use crate::timing::{duration_for, spec_duration_for};

verus! {

/// Named 96-byte RGB frame as stored on disk.
#[derive(Debug, Clone, PartialEq, Eq)]
pub struct Frame {
    pub name: String,
    pub rgb: Vec<u8>,
}

/// Related frames kept together in one frame file, as `(name, rgb)` pairs.
#[derive(Debug, Clone, PartialEq, Eq)]
pub struct FrameSet(pub Vec<(String, Vec<u8>)>);

/// What one frame file holds: a single frame or a set of them.
#[derive(Debug, Clone, PartialEq, Eq)]
pub enum FrameFile {
    Single(Frame),
    Multiple(FrameSet),
}

/// A cue from a show file: hotkey, dashboard name, category, and its program.
#[derive(Debug, Clone, PartialEq, Eq)]
pub struct Show {
    pub key: char,
    pub name: String,
    pub category: String,
    pub desc: String,
    pub looping: bool,
    pub program: Vec<Op>,
}

/// Engine opcodes. Procedural effects stay small instead of pre-expanded timelines.
#[derive(Debug, PartialEq, Eq)]
pub enum Op {
    Hold { frame: String, wait: Wait },
    LoadWorking { frame: String },
    HoldWorking { wait: Wait },
    Rotate13,
    MarqueeLeft,
    MarqueeRight,
}

/// A named delay (`"slp"`) or an explicit delay in milliseconds.
#[derive(Debug, PartialEq, Eq)]
pub enum Wait {
    Named(String),
    Ms(u64),
}

/// Why a catalog, a frame or a wait was rejected.
#[derive(Debug, PartialEq, Eq)]
pub enum CatalogError {
    /// Two shows claim the same hotkey: the one kept first, then the newcomer.
    DuplicateHotkey { key: char, first: String, second: String },
    /// A show names a frame that the catalog does not hold.
    UnknownFrame { show: String, frame: String },
    /// A show names a wait that is not one of the named delays.
    UnknownWaitName { show: String, name: String },
    /// A wait name that is not one of the named delays.
    UnknownWait { name: String },
    /// A frame whose RGB data is not exactly one packet long.
    FrameLength { name: String, len: usize },
    /// Two frames with one name.
    DuplicateFrame { name: String },
}

impl Clone for Wait {
    fn clone(&self) -> (r: Self)
        ensures
            r == *self,
    {
        match self {
            Wait::Named(n) => Wait::Named(n.clone()),
            Wait::Ms(ms) => Wait::Ms(*ms),
        }
    }
}

impl Clone for Op {
    fn clone(&self) -> (r: Self)
        ensures
            r == *self,
    {
        match self {
            Op::Hold { frame, wait } => Op::Hold { frame: frame.clone(), wait: wait.clone() },
            Op::LoadWorking { frame } => Op::LoadWorking { frame: frame.clone() },
            Op::HoldWorking { wait } => Op::HoldWorking { wait: wait.clone() },
            Op::Rotate13 => Op::Rotate13,
            Op::MarqueeLeft => Op::MarqueeLeft,
            Op::MarqueeRight => Op::MarqueeRight,
        }
    }
}

impl Wait {
    /// The delay in milliseconds, or `None` for an unknown wait name.
    pub open spec fn spec_duration(&self) -> Option<u64> {
        match self {
            Wait::Ms(ms) => Some(*ms),
            Wait::Named(n) => spec_duration_for(n@),
        }
    }

    /// Resolves this wait to milliseconds, looking a name up among the named delays.
    pub fn duration(&self) -> (res: Result<u64, CatalogError>)
        ensures
            match self {
                Wait::Ms(ms) => res == Ok::<u64, CatalogError>(*ms),
                Wait::Named(n) => match spec_duration_for(n@) {
                    Some(ms) => res == Ok::<u64, CatalogError>(ms),
                    None => res == Err::<u64, CatalogError>(CatalogError::UnknownWait { name: *n }),
                },
            },
    {
        match self {
            Wait::Ms(ms) => Ok(*ms),
            Wait::Named(name) => match duration_for(name.as_str()) {
                Some(ms) => Ok(ms),
                None => Err(CatalogError::UnknownWait { name: name.clone() }),
            },
        }
    }
}

impl Op {
    /// The wait of a holding opcode.
    pub open spec fn spec_wait(&self) -> Option<Wait> {
        match self {
            Op::Hold { wait, .. } => Some(*wait),
            Op::HoldWorking { wait } => Some(*wait),
            _ => None,
        }
    }

    /// The frame that an opcode names.
    pub open spec fn spec_frame(&self) -> Option<String> {
        match self {
            Op::Hold { frame, .. } => Some(*frame),
            Op::LoadWorking { frame } => Some(*frame),
            _ => None,
        }
    }

    fn wait(&self) -> (r: Option<&Wait>)
        ensures
            match r {
                Some(w) => self.spec_wait() == Some(*w),
                None => self.spec_wait() is None,
            },
    {
        match self {
            Op::Hold { wait, .. } => Some(wait),
            Op::HoldWorking { wait } => Some(wait),
            _ => None,
        }
    }

    fn frame_name(&self) -> (r: Option<&String>)
        ensures
            match r {
                Some(f) => self.spec_frame() == Some(*f),
                None => self.spec_frame() is None,
            },
    {
        match self {
            Op::Hold { frame, .. } => Some(frame),
            Op::LoadWorking { frame } => Some(frame),
            _ => None,
        }
    }
}

/// The frames table as a map from name to packet bytes (a later entry wins).
pub open spec fn frame_map(frames: Seq<(String, Packet)>) -> Map<Seq<char>, Seq<u8>>
    decreases frames.len(),
{
    if frames.len() == 0 {
        Map::empty()
    } else {
        frame_map(frames.drop_last()).insert(frames.last().0@, frames.last().1@)
    }
}

/// No two frames share a name.
pub open spec fn names_distinct(frames: Seq<(String, Packet)>) -> bool {
    forall|i: int, j: int| 0 <= i < j < frames.len() ==> frames[i].0@ != frames[j].0@
}

/// The shows as a map from hotkey to show (a later show wins).
pub open spec fn show_map(shows: Seq<Show>) -> Map<char, Show>
    decreases shows.len(),
{
    if shows.len() == 0 {
        Map::empty()
    } else {
        show_map(shows.drop_last()).insert(shows.last().key, shows.last())
    }
}

/// No two shows share a hotkey.
pub open spec fn keys_distinct(shows: Seq<Show>) -> bool {
    forall|i: int, j: int| 0 <= i < j < shows.len() ==> shows[i].key != shows[j].key
}

/// What is wrong with one opcode of `show`, if anything: a frame that `frames` lacks is
/// reported before an unknown wait name.
pub open spec fn op_error(frames: Map<Seq<char>, Seq<u8>>, show: Show, op: Op) -> Option<
    CatalogError,
> {
    let frame_error = match op.spec_frame() {
        Some(f) => if frames.contains_key(f@) {
            None
        } else {
            Some(CatalogError::UnknownFrame { show: show.name, frame: f })
        },
        None => None,
    };
    if frame_error is Some {
        frame_error
    } else {
        match op.spec_wait() {
            Some(w) => match w {
                Wait::Named(n) => if spec_duration_for(n@) is None {
                    Some(CatalogError::UnknownWaitName { show: show.name, name: n })
                } else {
                    None
                },
                Wait::Ms(_) => None,
            },
            None => None,
        }
    }
}

/// The first error among the first `n` opcodes of `show`.
pub open spec fn ops_error(frames: Map<Seq<char>, Seq<u8>>, show: Show, n: nat) -> Option<
    CatalogError,
>
    decreases n,
{
    if n == 0 {
        None
    } else {
        let prev = ops_error(frames, show, (n - 1) as nat);
        if prev is Some {
            prev
        } else {
            op_error(frames, show, show.program@[n - 1])
        }
    }
}

/// What is wrong with `show` after the shows `earlier` were accepted: a taken hotkey,
/// else the first bad opcode.
pub open spec fn show_error(frames: Map<Seq<char>, Seq<u8>>, earlier: Seq<Show>, show: Show) -> Option<
    CatalogError,
> {
    if show_map(earlier).contains_key(show.key) {
        Some(
            CatalogError::DuplicateHotkey {
                key: show.key,
                first: show_map(earlier)[show.key].name,
                second: show.name,
            },
        )
    } else {
        ops_error(frames, show, show.program@.len())
    }
}

/// The first error among the first `n` shows.
pub open spec fn shows_error(frames: Map<Seq<char>, Seq<u8>>, shows: Seq<Show>, n: nat) -> Option<
    CatalogError,
>
    decreases n,
{
    if n == 0 {
        None
    } else {
        let prev = shows_error(frames, shows, (n - 1) as nat);
        if prev is Some {
            prev
        } else {
            show_error(frames, shows.take(n - 1), shows[n - 1])
        }
    }
}

/// The first error of a whole catalog, or `None` when it is valid.
pub open spec fn catalog_error(frames: Map<Seq<char>, Seq<u8>>, shows: Seq<Show>) -> Option<
    CatalogError,
> {
    shows_error(frames, shows, shows.len())
}

/// A name is in the frames table exactly when some frame bears it.
pub proof fn lemma_frame_map_contains(frames: Seq<(String, Packet)>, name: Seq<char>)
    ensures
        frame_map(frames).contains_key(name) <==> exists|i: int|
            0 <= i < frames.len() && #[trigger] frames[i].0@ == name,
    decreases frames.len(),
{
    if frames.len() > 0 {
        let init = frames.drop_last();
        lemma_frame_map_contains(init, name);
        if frame_map(frames).contains_key(name) {
            if name != frames.last().0@ {
                let i = choose|i: int| 0 <= i < init.len() && #[trigger] init[i].0@ == name;
                assert(frames[i].0@ == name);
            } else {
                assert(frames[frames.len() - 1].0@ == name);
            }
        }
        if exists|i: int| 0 <= i < frames.len() && #[trigger] frames[i].0@ == name {
            let i = choose|i: int| 0 <= i < frames.len() && #[trigger] frames[i].0@ == name;
            if i < frames.len() - 1 {
                assert(init[i].0@ == name);
            }
        }
    }
}

/// Reading a frame back by name gives the packet it was stored with.
pub proof fn lemma_frame_map_value(frames: Seq<(String, Packet)>, i: int)
    requires
        names_distinct(frames),
        0 <= i < frames.len(),
    ensures
        frame_map(frames).contains_key(frames[i].0@),
        frame_map(frames)[frames[i].0@] == frames[i].1@,
    decreases frames.len(),
{
    let init = frames.drop_last();
    if i < frames.len() - 1 {
        assert(init[i] == frames[i]);
        lemma_frame_map_value(init, i);
        assert(frames.last().0@ != frames[i].0@);
    }
}

/// A hotkey is in the shows table exactly when some show is bound to it.
pub proof fn lemma_show_map_contains(shows: Seq<Show>, key: char)
    ensures
        show_map(shows).contains_key(key) <==> exists|i: int|
            0 <= i < shows.len() && #[trigger] shows[i].key == key,
    decreases shows.len(),
{
    if shows.len() > 0 {
        let init = shows.drop_last();
        lemma_show_map_contains(init, key);
        if show_map(shows).contains_key(key) {
            if key != shows.last().key {
                let i = choose|i: int| 0 <= i < init.len() && #[trigger] init[i].key == key;
                assert(shows[i].key == key);
            } else {
                assert(shows[shows.len() - 1].key == key);
            }
        }
        if exists|i: int| 0 <= i < shows.len() && #[trigger] shows[i].key == key {
            let i = choose|i: int| 0 <= i < shows.len() && #[trigger] shows[i].key == key;
            if i < shows.len() - 1 {
                assert(init[i].key == key);
            }
        }
    }
}

/// Reading a show back by hotkey gives the show that was stored with it.
pub proof fn lemma_show_map_value(shows: Seq<Show>, i: int)
    requires
        keys_distinct(shows),
        0 <= i < shows.len(),
    ensures
        show_map(shows).contains_key(shows[i].key),
        show_map(shows)[shows[i].key] == shows[i],
    decreases shows.len(),
{
    let init = shows.drop_last();
    if i < shows.len() - 1 {
        assert(init[i] == shows[i]);
        lemma_show_map_value(init, i);
        assert(shows.last().key != shows[i].key);
    }
}


proof fn lemma_ops_error_stable(fm: Map<Seq<char>, Seq<u8>>, show: Show, n: nat, m: nat)
    requires
        n <= m,
        ops_error(fm, show, n) is Some,
    ensures
        ops_error(fm, show, m) == ops_error(fm, show, n),
    decreases m - n,
{
    if n < m {
        lemma_ops_error_stable(fm, show, n, (m - 1) as nat);
    }
}

proof fn lemma_shows_error_stable(fm: Map<Seq<char>, Seq<u8>>, shows: Seq<Show>, n: nat, m: nat)
    requires
        n <= m,
        shows_error(fm, shows, n) is Some,
    ensures
        shows_error(fm, shows, m) == shows_error(fm, shows, n),
    decreases m - n,
{
    if n < m {
        lemma_shows_error_stable(fm, shows, n, (m - 1) as nat);
    }
}

/// Looks `name` up among the frames; the index of the frame that bears it.
fn find_frame(frames: &Vec<(String, Packet)>, name: &String) -> (r: Option<usize>)
    requires
        names_distinct(frames@),
    ensures
        match r {
            Some(i) => {
                &&& i < frames@.len()
                &&& frames@[i as int].0@ == name@
                &&& frame_map(frames@).contains_key(name@)
                &&& frame_map(frames@)[name@] == frames@[i as int].1@
            },
            None => !frame_map(frames@).contains_key(name@),
        },
{
    let mut i: usize = 0;
    while i < frames.len()
        invariant
            i <= frames@.len(),
            names_distinct(frames@),
            forall|k: int| 0 <= k < i ==> frames@[k].0@ != name@,
        decreases frames@.len() - i,
    {
        if frames[i].0 == *name {
            proof {
                lemma_frame_map_value(frames@, i as int);
            }
            return Some(i);
        }
        i = i + 1;
    }
    proof {
        lemma_frame_map_contains(frames@, name@);
    }
    None
}

/// The first error among the opcodes of `show`, checked against `frames`.
fn check_program(frames: &Vec<(String, Packet)>, show: &Show) -> (r: Option<CatalogError>)
    requires
        names_distinct(frames@),
    ensures
        r == ops_error(frame_map(frames@), *show, show.program@.len()),
{
    let ghost fm = frame_map(frames@);
    let mut i: usize = 0;
    while i < show.program.len()
        invariant
            i <= show.program@.len(),
            names_distinct(frames@),
            fm == frame_map(frames@),
            ops_error(fm, *show, i as nat) is None,
        decreases show.program@.len() - i,
    {
        let op = &show.program[i];
        if let Some(frame) = op.frame_name() {
            if find_frame(frames, frame).is_none() {
                proof {
                    lemma_ops_error_stable(fm, *show, (i + 1) as nat, show.program@.len());
                }
                return Some(
                    CatalogError::UnknownFrame { show: show.name.clone(), frame: frame.clone() },
                );
            }
        }
        if let Some(w) = op.wait() {
            if let Wait::Named(name) = w {
                if duration_for(name.as_str()).is_none() {
                    proof {
                        lemma_ops_error_stable(fm, *show, (i + 1) as nat, show.program@.len());
                    }
                    return Some(
                        CatalogError::UnknownWaitName {
                            show: show.name.clone(),
                            name: name.clone(),
                        },
                    );
                }
            }
        }
        assert(op_error(fm, *show, show.program@[i as int]) is None);
        i = i + 1;
    }
    None
}

/// Validated in-memory show catalog: frames by name, shows by hotkey.
#[derive(Debug)]
pub struct Catalog {
    frames: Vec<(String, Packet)>,
    shows: Vec<Show>,
}

/// What a catalog holds: packet bytes by frame name and shows by hotkey.
pub struct CatalogView {
    pub frames: Map<Seq<char>, Seq<u8>>,
    pub shows: Map<char, Show>,
}

impl View for Catalog {
    type V = CatalogView;

    closed spec fn view(&self) -> CatalogView {
        CatalogView { frames: frame_map(self.frames@), shows: show_map(self.shows@) }
    }
}

impl Default for Catalog {
    fn default() -> (c: Self)
        ensures
            c@.frames == Map::<Seq<char>, Seq<u8>>::empty(),
            c@.shows == Map::<char, Show>::empty(),
    {
        Catalog { frames: Vec::new(), shows: Vec::new() }
    }
}

impl Catalog {
    #[verifier::type_invariant]
    closed spec fn wf(self) -> bool {
        &&& names_distinct(self.frames@)
        &&& keys_distinct(self.shows@)
    }

    /// Merges frames and shows, rejecting a hotkey used twice, a reference to an unknown
    /// frame and an unknown wait name: the first such fault, show by show and opcode by
    /// opcode, is the error. On success the catalog holds exactly the given frames and shows.
    pub fn new(frames: Vec<(String, Packet)>, shows: Vec<Show>) -> (res: Result<Catalog, CatalogError>)
        requires
            names_distinct(frames@),
        ensures
            match res {
                Ok(c) => {
                    &&& catalog_error(frame_map(frames@), shows@) is None
                    &&& c@.frames == frame_map(frames@)
                    &&& c@.shows == show_map(shows@)
                },
                Err(e) => catalog_error(frame_map(frames@), shows@) == Some(e),
            },
    {
        let ghost fm = frame_map(frames@);
        let mut i: usize = 0;
        while i < shows.len()
            invariant
                i <= shows@.len(),
                names_distinct(frames@),
                fm == frame_map(frames@),
                shows_error(fm, shows@, i as nat) is None,
                keys_distinct(shows@.take(i as int)),
            decreases shows@.len() - i,
        {
            let show = &shows[i];
            let ghost earlier = shows@.take(i as int);
            assert(shows@.take(i + 1 as int).drop_last() =~= earlier);
            let mut j: usize = 0;
            while j < i
                invariant
                    j <= i < shows@.len(),
                    names_distinct(frames@),
                    fm == frame_map(frames@),
                    shows_error(fm, shows@, i as nat) is None,
                    keys_distinct(earlier),
                    earlier == shows@.take(i as int),
                    show == shows@[i as int],
                    forall|k: int| 0 <= k < j ==> shows@[k].key != show.key,
                decreases i - j,
            {
                if shows[j].key == show.key {
                    proof {
                        assert(earlier[j as int] == shows@[j as int]);
                        lemma_show_map_value(earlier, j as int);
                        lemma_shows_error_stable(fm, shows@, (i + 1) as nat, shows@.len());
                    }
                    return Err(
                        CatalogError::DuplicateHotkey {
                            key: show.key,
                            first: shows[j].name.clone(),
                            second: show.name.clone(),
                        },
                    );
                }
                j = j + 1;
            }
            proof {
                lemma_show_map_contains(earlier, show.key);
                if show_map(earlier).contains_key(show.key) {
                    let k = choose|k: int| 0 <= k < earlier.len() && #[trigger] earlier[k].key
                        == show.key;
                    assert(earlier[k] == shows@[k]);
                }
            }
            let bad = check_program(&frames, show);
            if let Some(e) = bad {
                proof {
                    lemma_shows_error_stable(fm, shows@, (i + 1) as nat, shows@.len());
                }
                return Err(e);
            }
            proof {
                let t = shows@.take(i + 1 as int);
                assert forall|a: int, b: int| 0 <= a < b < t.len() implies #[trigger] t[a].key
                    != #[trigger] t[b].key by {
                    if b < i {
                        assert(earlier[a] == shows@[a]);
                        assert(earlier[b] == shows@[b]);
                    } else {
                        assert(earlier[a] == shows@[a]);
                    }
                }
            }
            i = i + 1;
        }
        assert(shows@.take(shows@.len() as int) =~= shows@);
        Ok(Catalog { frames, shows })
    }

    /// The packet of the frame called `name`.
    pub fn frame(&self, name: &str) -> (res: Option<&Packet>)
        ensures
            match res {
                Some(p) => self@.frames.contains_key(name@) && p@ == self@.frames[name@],
                None => !self@.frames.contains_key(name@),
            },
    {
        proof {
            use_type_invariant(self);
        }
        let key = name.to_owned();
        match find_frame(&self.frames, &key) {
            Some(i) => Some(&self.frames[i].1),
            None => None,
        }
    }

    /// The show bound to hotkey `key`.
    pub fn show_for_key(&self, key: char) -> (res: Option<&Show>)
        ensures
            match res {
                Some(s) => self@.shows.contains_key(key) && *s == self@.shows[key],
                None => !self@.shows.contains_key(key),
            },
    {
        proof {
            use_type_invariant(self);
        }
        let mut i: usize = 0;
        while i < self.shows.len()
            invariant
                i <= self.shows@.len(),
                keys_distinct(self.shows@),
                forall|k: int| 0 <= k < i ==> self.shows@[k].key != key,
            decreases self.shows@.len() - i,
        {
            if self.shows[i].key == key {
                proof {
                    lemma_show_map_value(self.shows@, i as int);
                }
                return Some(&self.shows[i]);
            }
            i = i + 1;
        }
        proof {
            lemma_show_map_contains(self.shows@, key);
        }
        None
    }

    /// All shows of the catalog, each once: the `i`-th listed show is the one bound to its
    /// own hotkey, and every bound hotkey is listed.
    pub fn shows(&self) -> (res: &Vec<Show>)
        ensures
            res@.len() == self@.shows.dom().len(),
            forall|i: int| 0 <= i < res@.len() ==> #[trigger] self@.shows.contains_key(res@[i].key)
                && self@.shows[res@[i].key] == res@[i],
            forall|k: char| #[trigger] self@.shows.contains_key(k) ==> exists|i: int|
                0 <= i < res@.len() && res@[i].key == k,
            keys_distinct(res@),
    {
        proof {
            use_type_invariant(self);
            assert forall|i: int| 0 <= i < self.shows@.len() implies #[trigger] show_map(
                self.shows@,
            ).contains_key(self.shows@[i].key) && show_map(self.shows@)[self.shows@[i].key]
                == self.shows@[i] by {
                lemma_show_map_value(self.shows@, i);
            }
            assert forall|k: char| #[trigger] show_map(self.shows@).contains_key(k) implies exists|
                i: int,
            | 0 <= i < self.shows@.len() && self.shows@[i].key == k by {
                lemma_show_map_contains(self.shows@, k);
            }
            lemma_show_map_len(self.shows@);
        }
        &self.shows
    }

    /// Whether the catalog holds no show.
    pub fn is_empty(&self) -> (res: bool)
        ensures
            res == (self@.shows.dom().len() == 0),
    {
        proof {
            use_type_invariant(self);
            lemma_show_map_len(self.shows@);
        }
        self.shows.len() == 0
    }
}

proof fn lemma_show_map_len(shows: Seq<Show>)
    requires
        keys_distinct(shows),
    ensures
        show_map(shows).dom().finite(),
        show_map(shows).dom().len() == shows.len(),
    decreases shows.len(),
{
    if shows.len() > 0 {
        let init = shows.drop_last();
        lemma_show_map_len(init);
        lemma_show_map_contains(init, shows.last().key);
        if show_map(init).contains_key(shows.last().key) {
            let i = choose|i: int| 0 <= i < init.len() && #[trigger] init[i].key == shows.last().key;
            assert(shows[i].key == shows[shows.len() - 1].key);
        }
    }
}

/// Copies RGB bytes into a packet, refusing data that is not exactly one packet long.
fn vec_to_packet(name: &String, rgb: &Vec<u8>) -> (res: Result<Packet, CatalogError>)
    ensures
        match res {
            Ok(p) => rgb@.len() == PACKET_LEN && p@ == rgb@,
            Err(e) => rgb@.len() != PACKET_LEN && e == CatalogError::FrameLength {
                name: *name,
                len: rgb@.len() as usize,
            },
        },
{
    if rgb.len() != PACKET_LEN {
        return Err(CatalogError::FrameLength { name: name.clone(), len: rgb.len() });
    }
    let mut packet: Packet = DARK;
    let mut k: usize = 0;
    while k < PACKET_LEN
        invariant
            k <= PACKET_LEN,
            rgb@.len() == PACKET_LEN,
            packet@.len() == PACKET_LEN,
            forall|m: int| 0 <= m < k ==> packet@[m] == rgb@[m],
        decreases PACKET_LEN - k,
    {
        packet[k] = rgb[k];
        k = k + 1;
    }
    assert(packet@ =~= rgb@);
    Ok(packet)
}

impl Frame {
    /// Converts the RGB bytes into a wire packet; they must be exactly one packet long.
    pub fn to_packet(&self) -> (res: Result<Packet, CatalogError>)
        ensures
            match res {
                Ok(p) => self.rgb@.len() == PACKET_LEN && p@ == self.rgb@,
                Err(e) => self.rgb@.len() != PACKET_LEN && e == CatalogError::FrameLength {
                    name: self.name,
                    len: self.rgb@.len() as usize,
                },
            },
    {
        vec_to_packet(&self.name, &self.rgb)
    }
}

/// The frames table after one more `(name, rgb)` entry: a wrong length is reported before
/// a name that is already taken.
pub open spec fn add_entry(
    acc: Result<Map<Seq<char>, Seq<u8>>, CatalogError>,
    entry: (String, Vec<u8>),
) -> Result<Map<Seq<char>, Seq<u8>>, CatalogError> {
    match acc {
        Err(e) => Err(e),
        Ok(m) => if entry.1@.len() != PACKET_LEN {
            Err(CatalogError::FrameLength { name: entry.0, len: entry.1@.len() as usize })
        } else if m.contains_key(entry.0@) {
            Err(CatalogError::DuplicateFrame { name: entry.0 })
        } else {
            Ok(m.insert(entry.0@, entry.1@))
        },
    }
}

/// The frames table after the entries `es`, in order.
pub open spec fn add_entries(
    acc: Result<Map<Seq<char>, Seq<u8>>, CatalogError>,
    es: Seq<(String, Vec<u8>)>,
) -> Result<Map<Seq<char>, Seq<u8>>, CatalogError>
    decreases es.len(),
{
    if es.len() == 0 {
        acc
    } else {
        add_entry(add_entries(acc, es.drop_last()), es.last())
    }
}

/// The `(name, rgb)` entries of one frame file.
pub open spec fn file_entries(f: FrameFile) -> Seq<(String, Vec<u8>)> {
    match f {
        FrameFile::Single(fr) => seq![(fr.name, fr.rgb)],
        FrameFile::Multiple(set) => set.0@,
    }
}

/// The frames table that the frame files give, file after file, or its first error.
pub open spec fn frames_result(files: Seq<FrameFile>) -> Result<Map<Seq<char>, Seq<u8>>, CatalogError>
    decreases files.len(),
{
    if files.len() == 0 {
        Ok(Map::empty())
    } else {
        add_entries(frames_result(files.drop_last()), file_entries(files.last()))
    }
}

proof fn lemma_add_entries_err(e: CatalogError, es: Seq<(String, Vec<u8>)>)
    ensures
        add_entries(Err(e), es) == Err::<Map<Seq<char>, Seq<u8>>, CatalogError>(e),
    decreases es.len(),
{
    if es.len() > 0 {
        lemma_add_entries_err(e, es.drop_last());
    }
}

proof fn lemma_frames_result_err(files: Seq<FrameFile>, i: int)
    requires
        0 <= i <= files.len(),
        frames_result(files.take(i)) is Err,
    ensures
        frames_result(files) == frames_result(files.take(i)),
    decreases files.len() - i,
{
    if i < files.len() {
        let e = frames_result(files.take(i))->Err_0;
        assert(files.take(i + 1).drop_last() =~= files.take(i));
        lemma_add_entries_err(e, file_entries(files[i]));
        lemma_frames_result_err(files, i + 1);
    } else {
        assert(files.take(i) =~= files);
    }
}

/// Adds one named frame to the table, refusing a wrong length or a name already present.
fn insert_frame(frames: &mut Vec<(String, Packet)>, name: &String, rgb: &Vec<u8>) -> (res: Result<
    (),
    CatalogError,
>)
    requires
        names_distinct(old(frames)@),
    ensures
        match res {
            Ok(()) => {
                &&& add_entry(Ok(frame_map(old(frames)@)), (*name, *rgb)) == Ok::<
                    Map<Seq<char>, Seq<u8>>,
                    CatalogError,
                >(frame_map(final(frames)@))
                &&& names_distinct(final(frames)@)
            },
            Err(e) => add_entry(Ok(frame_map(old(frames)@)), (*name, *rgb)) == Err::<
                Map<Seq<char>, Seq<u8>>,
                CatalogError,
            >(e),
        },
{
    let packet = vec_to_packet(name, rgb)?;
    if find_frame(frames, name).is_some() {
        return Err(CatalogError::DuplicateFrame { name: name.clone() });
    }
    let ghost before = frames@;
    frames.push((name.clone(), packet));
    proof {
        lemma_frame_map_contains(before, name@);
        assert(frames@.drop_last() =~= before);
        assert forall|i: int, j: int| 0 <= i < j < frames@.len() implies frames@[i].0@
            != frames@[j].0@ by {
            if j == frames@.len() - 1 {
                assert(before[i] == frames@[i]);
            } else {
                assert(before[i] == frames@[i]);
                assert(before[j] == frames@[j]);
            }
        }
    }
    Ok(())
}

impl Catalog {
    /// Builds the catalog from the contents of frame files and show files: every frame
    /// must be one packet long and its name unused so far, file after file and entry after
    /// entry; then the frames and shows are merged as [`Catalog::new`] does.
    pub fn load(files: Vec<FrameFile>, shows: Vec<Show>) -> (res: Result<Catalog, CatalogError>)
        ensures
            match frames_result(files@) {
                Err(e) => res == Err::<Catalog, CatalogError>(e),
                Ok(m) => match res {
                    Ok(c) => {
                        &&& catalog_error(m, shows@) is None
                        &&& c@.frames == m
                        &&& c@.shows == show_map(shows@)
                    },
                    Err(e) => catalog_error(m, shows@) == Some(e),
                },
            },
            res matches Ok(c) ==> forall|i: int, j: int|
                0 <= i < files@.len() && 0 <= j < file_entries(files@[i]).len() ==> {
                    &&& (#[trigger] file_entries(files@[i])[j]).1@.len() == PACKET_LEN
                    &&& c@.frames.contains_key(file_entries(files@[i])[j].0@)
                    &&& c@.frames[file_entries(files@[i])[j].0@] == file_entries(files@[i])[j].1@
                },
    {
        let mut frames: Vec<(String, Packet)> = Vec::new();
        let mut i: usize = 0;
        assert(files@.take(0).len() == 0);
        while i < files.len()
            invariant
                i <= files@.len(),
                names_distinct(frames@),
                frames_result(files@.take(i as int)) == Ok::<
                    Map<Seq<char>, Seq<u8>>,
                    CatalogError,
                >(frame_map(frames@)),
            decreases files@.len() - i,
        {
            let ghost start = frame_map(frames@);
            assert(files@.take(i + 1).drop_last() =~= files@.take(i as int));
            match &files[i] {
                FrameFile::Single(frame) => {
                    let r = insert_frame(&mut frames, &frame.name, &frame.rgb);
                    assert(file_entries(files@[i as int]) == seq![(frame.name, frame.rgb)]);
                    assert(seq![(frame.name, frame.rgb)].drop_last() =~= Seq::<
                        (String, Vec<u8>),
                    >::empty());
                    proof {
                        let e1 = (frame.name, frame.rgb);
                        assert(files@.take(i + 1).last() == files@[i as int]);
                        assert(add_entries(Ok(start), seq![e1]) == add_entry(
                            add_entries(Ok(start), seq![e1].drop_last()),
                            e1,
                        ));
                        assert(frames_result(files@.take(i + 1)) == add_entry(Ok(start), e1));
                    }
                    if let Err(e) = r {
                        proof {
                            lemma_frames_result_err(files@, i + 1);
                        }
                        return Err(e);
                    }
                },
                FrameFile::Multiple(set) => {
                    let es = &set.0;
                    let mut j: usize = 0;
                    while j < es.len()
                        invariant
                            j <= es@.len(),
                            i < files@.len(),
                            es@ == file_entries(files@[i as int]),
                            names_distinct(frames@),
                            add_entries(Ok(start), es@.take(j as int)) == Ok::<
                                Map<Seq<char>, Seq<u8>>,
                                CatalogError,
                            >(frame_map(frames@)),
                            frames_result(files@.take(i as int)) == Ok::<
                                Map<Seq<char>, Seq<u8>>,
                                CatalogError,
                            >(start),
                            files@.take(i + 1).drop_last() == files@.take(i as int),
                        decreases es@.len() - j,
                    {
                        assert(es@.take(j + 1).drop_last() =~= es@.take(j as int));
                        let r = insert_frame(&mut frames, &es[j].0, &es[j].1);
                        if let Err(e) = r {
                            proof {
                                lemma_add_entries_err(e, es@.skip(j + 1));
                                lemma_add_entries_split(Ok(start), es@, j + 1);
                                lemma_frames_result_err(files@, i + 1);
                            }
                            return Err(e);
                        }
                        j = j + 1;
                    }
                    assert(es@.take(es@.len() as int) =~= es@);
                },
            }
            i = i + 1;
        }
        assert(files@.take(files@.len() as int) =~= files@);
        proof {
            lemma_frames_result_ok(files@);
        }
        Catalog::new(frames, shows)
    }
}

proof fn lemma_add_entries_split(
    acc: Result<Map<Seq<char>, Seq<u8>>, CatalogError>,
    es: Seq<(String, Vec<u8>)>,
    j: int,
)
    requires
        0 <= j <= es.len(),
    ensures
        add_entries(acc, es) == add_entries(add_entries(acc, es.take(j)), es.skip(j)),
    decreases es.len(),
{
    if j == es.len() {
        assert(es.take(j) =~= es);
        assert(es.skip(j).len() == 0);
    } else {
        let dl = es.drop_last();
        lemma_add_entries_split(acc, dl, j);
        assert(dl.take(j) =~= es.take(j));
        assert(es.skip(j).drop_last() =~= dl.skip(j));
        assert(es.skip(j).last() == es.last());
    }
}

impl CatalogError {
    /// The operator-facing text of the error.
    pub open spec fn spec_message(&self) -> Seq<char> {
        match self {
            CatalogError::DuplicateHotkey { key, first, second } => "duplicate hotkey '"@ + seq![
                *key,
            ] + "': '"@ + first@ + "' and '"@ + second@ + "'"@,
            CatalogError::UnknownFrame { show, frame } => "show '"@ + show@
                + "' references unknown frame `"@ + frame@ + "`"@,
            CatalogError::UnknownWaitName { show, name } => "show '"@ + show@
                + "' has unknown wait name `"@ + name@ + "`"@,
            CatalogError::UnknownWait { name } => "unknown wait name `"@ + name@ + "`"@,
            CatalogError::FrameLength { name, len } => "frame `"@ + name@ + "` has "@ + decimal(
                *len as nat,
            ) + " bytes, expected 96"@,
            CatalogError::DuplicateFrame { name } => "duplicate frame name `"@ + name@ + "`"@,
        }
    }

    /// Renders the error for the operator, naming the show, frame, wait or hotkey at fault.
    pub fn message(&self) -> (s: String)
        ensures
            s@ == self.spec_message(),
    {
        match self {
            CatalogError::DuplicateHotkey { key, first, second } => {
                let mut s = String::from_str("duplicate hotkey '");
                push_char(&mut s, *key);
                s.append("': '");
                s.append(first.as_str());
                s.append("' and '");
                s.append(second.as_str());
                s.append("'");
                s
            },
            CatalogError::UnknownFrame { show, frame } => {
                let mut s = String::from_str("show '");
                s.append(show.as_str());
                s.append("' references unknown frame `");
                s.append(frame.as_str());
                s.append("`");
                s
            },
            CatalogError::UnknownWaitName { show, name } => {
                let mut s = String::from_str("show '");
                s.append(show.as_str());
                s.append("' has unknown wait name `");
                s.append(name.as_str());
                s.append("`");
                s
            },
            CatalogError::UnknownWait { name } => {
                let mut s = String::from_str("unknown wait name `");
                s.append(name.as_str());
                s.append("`");
                s
            },
            CatalogError::FrameLength { name, len } => {
                let mut s = String::from_str("frame `");
                s.append(name.as_str());
                s.append("` has ");
                push_decimal(&mut s, *len as u64);
                s.append(" bytes, expected 96");
                s
            },
            CatalogError::DuplicateFrame { name } => {
                let mut s = String::from_str("duplicate frame name `");
                s.append(name.as_str());
                s.append("`");
                s
            },
        }
    }
}

/// Every frame an opcode names is in `frames`, and every wait name it uses is a named
/// delay.
pub open spec fn op_refs_known(frames: Map<Seq<char>, Seq<u8>>, op: Op) -> bool {
    &&& (op.spec_frame() matches Some(f) ==> frames.contains_key(f@))
    &&& (op.spec_wait() matches Some(Wait::Named(n)) ==> spec_duration_for(n@) is Some)
}

proof fn lemma_ops_error_none(frames: Map<Seq<char>, Seq<u8>>, show: Show, n: nat)
    requires
        n <= show.program@.len(),
        ops_error(frames, show, n) is None,
    ensures
        forall|j: int| 0 <= j < n ==> op_refs_known(frames, #[trigger] show.program@[j]),
    decreases n,
{
    if n > 0 {
        lemma_ops_error_none(frames, show, (n - 1) as nat);
        let op = show.program@[n - 1];
        assert(op_error(frames, show, op) is None);
        assert(op_refs_known(frames, op));
    }
}

proof fn lemma_shows_error_none(frames: Map<Seq<char>, Seq<u8>>, shows: Seq<Show>, n: nat)
    requires
        n <= shows.len(),
        shows_error(frames, shows, n) is None,
    ensures
        keys_distinct(shows.take(n as int)),
        forall|i: int, j: int|
            0 <= i < n && 0 <= j < shows[i].program@.len() ==> op_refs_known(
                frames,
                #[trigger] shows[i].program@[j],
            ),
    decreases n,
{
    if n > 0 {
        let m = (n - 1) as nat;
        lemma_shows_error_none(frames, shows, m);
        let earlier = shows.take(m as int);
        let show = shows[m as int];
        assert(show_error(frames, earlier, show) is None);
        lemma_show_map_contains(earlier, show.key);
        lemma_ops_error_none(frames, show, show.program@.len());
        let t = shows.take(n as int);
        assert forall|a: int, b: int| 0 <= a < b < t.len() implies #[trigger] t[a].key
            != #[trigger] t[b].key by {
            assert(t[a] == shows[a]);
            assert(t[b] == shows[b]);
            if b < m {
                assert(earlier[a] == shows[a]);
                assert(earlier[b] == shows[b]);
            } else {
                assert(earlier[a] == shows[a]);
            }
        }
    }
}

/// A catalog that passes its checks binds each hotkey to one show, and every frame and
/// wait name its shows use is known.
pub proof fn lemma_valid_catalog(frames: Map<Seq<char>, Seq<u8>>, shows: Seq<Show>)
    requires
        catalog_error(frames, shows) is None,
    ensures
        keys_distinct(shows),
        forall|i: int, j: int|
            0 <= i < shows.len() && 0 <= j < shows[i].program@.len() ==> op_refs_known(
                frames,
                #[trigger] shows[i].program@[j],
            ),
{
    lemma_shows_error_none(frames, shows, shows.len());
    assert(shows.take(shows.len() as int) =~= shows);
}

proof fn lemma_add_entries_ok(
    acc: Result<Map<Seq<char>, Seq<u8>>, CatalogError>,
    es: Seq<(String, Vec<u8>)>,
)
    ensures
        add_entries(acc, es) matches Ok(m) ==> {
            &&& acc matches Ok(m0)
            &&& forall|n: Seq<char>| #[trigger] m0.contains_key(n) ==> m.contains_key(n) && m[n]
                == m0[n]
            &&& forall|j: int|
                0 <= j < es.len() ==> {
                    &&& (#[trigger] es[j]).1@.len() == PACKET_LEN
                    &&& m.contains_key(es[j].0@)
                    &&& m[es[j].0@] == es[j].1@
                }
        },
    decreases es.len(),
{
    if es.len() > 0 {
        let dl = es.drop_last();
        lemma_add_entries_ok(acc, dl);
        if let Ok(m) = add_entries(acc, es) {
            let m1 = add_entries(acc, dl)->Ok_0;
            let e = es.last();
            assert(m == m1.insert(e.0@, e.1@));
            assert forall|j: int| 0 <= j < es.len() implies {
                &&& (#[trigger] es[j]).1@.len() == PACKET_LEN
                &&& m.contains_key(es[j].0@)
                &&& m[es[j].0@] == es[j].1@
            } by {
                if j < es.len() - 1 {
                    assert(dl[j] == es[j]);
                    assert(m1.contains_key(es[j].0@));
                    assert(es[j].0@ != e.0@);
                }
            }
        }
    }
}

proof fn lemma_frames_result_ok(files: Seq<FrameFile>)
    ensures
        frames_result(files) matches Ok(m) ==> forall|i: int, j: int|
            0 <= i < files.len() && 0 <= j < file_entries(files[i]).len() ==> {
                &&& (#[trigger] file_entries(files[i])[j]).1@.len() == PACKET_LEN
                &&& m.contains_key(file_entries(files[i])[j].0@)
                &&& m[file_entries(files[i])[j].0@] == file_entries(files[i])[j].1@
            },
    decreases files.len(),
{
    if files.len() > 0 {
        let dl = files.drop_last();
        lemma_frames_result_ok(dl);
        let last = file_entries(files.last());
        lemma_add_entries_ok(frames_result(dl), last);
        if let Ok(m) = frames_result(files) {
            let m0 = frames_result(dl)->Ok_0;
            assert forall|i: int, j: int|
                0 <= i < files.len() && 0 <= j < file_entries(files[i]).len() implies {
                &&& (#[trigger] file_entries(files[i])[j]).1@.len() == PACKET_LEN
                &&& m.contains_key(file_entries(files[i])[j].0@)
                &&& m[file_entries(files[i])[j].0@] == file_entries(files[i])[j].1@
            } by {
                if i < files.len() - 1 {
                    assert(dl[i] == files[i]);
                    let e = file_entries(dl[i])[j];
                    assert(m0.contains_key(e.0@));
                } else {
                    assert(files[i] == files.last());
                    assert(last[j] == file_entries(files[i])[j]);
                }
            }
        }
    }
}

/// Loading keeps every frame exactly as its file holds it: when the frames of the files
/// are accepted, every entry of every file is exactly one packet long, and the catalog's
/// packet under its name is its bytes. So `Catalog::load` succeeds only on files whose
/// frames all have the right length, and never trims or pads one.
pub proof fn lemma_loaded_frames_are_exact(files: Seq<FrameFile>)
    ensures
        frames_result(files) matches Ok(m) ==> forall|i: int, j: int|
            0 <= i < files.len() && 0 <= j < file_entries(files[i]).len() ==> {
                &&& (#[trigger] file_entries(files[i])[j]).1@.len() == PACKET_LEN
                &&& m.contains_key(file_entries(files[i])[j].0@)
                &&& m[file_entries(files[i])[j].0@] == file_entries(files[i])[j].1@
            },
        forall|i: int, j: int|
            0 <= i < files.len() && 0 <= j < file_entries(files[i]).len() && (#[trigger] file_entries(
                files[i],
            )[j]).1@.len() != PACKET_LEN ==> frames_result(files) is Err,
{
    lemma_frames_result_ok(files);
}

} // verus!
