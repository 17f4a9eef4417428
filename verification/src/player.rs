//! The command side of the video player's decoder loop: what each command
//! from the controls does to the loop's state, which updates the player's
//! published playback state gets, and the keyed list of frame hooks.

use vstd::prelude::*;

use crate::text::str_equal;

verus! {

/// A frame hook registered under a key.
pub struct PreprocessorEntry<H> {
    pub key: String,
    pub hook: H,
}

/// Whether `i` is the first position of `key` in `s`.
pub open spec fn is_first_key<H>(s: Seq<PreprocessorEntry<H>>, key: Seq<char>, i: int) -> bool {
    &&& 0 <= i < s.len()
    &&& s[i].key@ == key
    &&& forall|j: int| 0 <= j < i ==> #[trigger] s[j].key@ != key
}

/// The first position of `key` in `s`, or -1.
pub open spec fn find_key<H>(s: Seq<PreprocessorEntry<H>>, key: Seq<char>) -> int {
    if exists|i: int| is_first_key(s, key, i) {
        choose|i: int| is_first_key(s, key, i)
    } else {
        -1
    }
}

/// `s` without the entries under `key`, in order.
pub open spec fn without_key<H>(s: Seq<PreprocessorEntry<H>>, key: Seq<char>) -> Seq<
    PreprocessorEntry<H>,
>
    decreases s.len(),
{
    if s.len() == 0 {
        s
    } else {
        let rest = without_key(s.drop_last(), key);
        if s.last().key@ == key {
            rest
        } else {
            rest.push(s.last())
        }
    }
}

proof fn lemma_first_key_unique<H>(s: Seq<PreprocessorEntry<H>>, key: Seq<char>, i: int, k: int)
    requires
        is_first_key(s, key, i),
        is_first_key(s, key, k),
    ensures
        i == k,
{
    if i < k {
        assert(s[i].key@ != key);
    } else if k < i {
        assert(s[k].key@ != key);
    }
}

/// Installs `hook` under `key`: the first entry under `key` gets it, or a
/// new entry is added at the end. The frames then need redrawing, so the
/// answer is always `true`.
pub fn upsert_preprocessor<H>(preprocessors: &mut Vec<PreprocessorEntry<H>>, key: String, hook: H) -> (res:
    bool)
    ensures
        res,
        find_key(old(preprocessors)@, key@) >= 0 ==> final(preprocessors)@ == old(preprocessors)@.update(
            find_key(old(preprocessors)@, key@),
            PreprocessorEntry {
                key: old(preprocessors)@[find_key(old(preprocessors)@, key@)].key,
                hook,
            },
        ),
        find_key(old(preprocessors)@, key@) < 0 ==> final(preprocessors)@ == old(preprocessors)@.push(
            PreprocessorEntry { key, hook },
        ),
{
    let mut i: usize = 0;
    while i < preprocessors.len()
        invariant
            0 <= i <= preprocessors.len(),
            preprocessors@ == old(preprocessors)@,
            forall|j: int| 0 <= j < i ==> #[trigger] preprocessors@[j].key@ != key@,
        decreases preprocessors.len() - i,
    {
        if preprocessors[i].key == key {
            proof {
                assert(is_first_key(preprocessors@, key@, i as int));
                let k = choose|k: int| is_first_key(preprocessors@, key@, k);
                lemma_first_key_unique(preprocessors@, key@, i as int, k);
            }
            let mut entry = preprocessors.remove(i);
            entry.hook = hook;
            preprocessors.insert(i, entry);
            assert(preprocessors@ =~= old(preprocessors)@.update(
                i as int,
                PreprocessorEntry { key: old(preprocessors)@[i as int].key, hook },
            ));
            return true;
        }
        i = i + 1;
    }
    assert(!exists|k: int| is_first_key(preprocessors@, key@, k));
    preprocessors.push(PreprocessorEntry { key, hook });
    true
}

/// Drops every hook under `key`; `true` when there was one.
pub fn remove_preprocessor<H>(preprocessors: &mut Vec<PreprocessorEntry<H>>, key: &str) -> (res: bool)
    ensures
        final(preprocessors)@ == without_key(old(preprocessors)@, key@),
        res == (final(preprocessors)@.len() != old(preprocessors)@.len()),
{
    let before = preprocessors.len();
    let ghost original = preprocessors@;
    let mut pending: Vec<PreprocessorEntry<H>> = Vec::new();
    std::mem::swap(&mut pending, preprocessors);
    let mut done: usize = 0;
    assert(original.subrange(0, 0) =~= Seq::<PreprocessorEntry<H>>::empty());
    while pending.len() > 0
        invariant
            done + pending.len() == original.len(),
            before == original.len(),
            pending@ == original.subrange(done as int, original.len() as int),
            preprocessors@ == without_key(original.subrange(0, done as int), key@),
        decreases pending.len(),
    {
        let entry = pending.remove(0);
        assert(entry == original[done as int]);
        assert(original.subrange(0, done + 1).drop_last() =~= original.subrange(0, done as int));
        if !str_equal(entry.key.as_str(), key) {
            preprocessors.push(entry);
        }
        done = done + 1;
    }
    assert(original.subrange(0, original.len() as int) =~= original);
    preprocessors.len() != before
}

/// How a video is opened.
#[derive(Clone, Copy, Debug, PartialEq, Eq, Structural)]
pub struct VideoOpenOptions {
    pub paused: bool,
    pub start_frame: Option<u64>,
}

impl Default for VideoOpenOptions {
    /// Opened playing from the start.
    fn default() -> (res: VideoOpenOptions)
        ensures
            res == (VideoOpenOptions { paused: false, start_frame: None }),
    {
        VideoOpenOptions { paused: false, start_frame: None }
    }
}

impl VideoOpenOptions {
    /// Opened paused at the start.
    pub fn paused() -> (res: VideoOpenOptions)
        ensures
            res == (VideoOpenOptions { paused: true, start_frame: None }),
    {
        VideoOpenOptions { paused: true, start_frame: None }
    }
}

/// What became of asking the open decoder to seek.
#[derive(Clone, Copy, Debug, PartialEq, Eq, Structural)]
pub enum SeekOutcome {
    /// The decoder took the seek; frames of this serial answer it.
    Started(u64),
    /// The decoder refused it.
    Failed,
    /// No decoder is open.
    NoSession,
}

/// A command to the decoder loop. A seek comes with the frame it aims at
/// (when known) and what the decoder made of it.
pub enum PlayerCommand<S, H> {
    Open(String, VideoOpenOptions),
    Play,
    Pause,
    TogglePause,
    BeginScrub,
    EndScrub,
    Seek { seek: S, frame: Option<u64>, outcome: SeekOutcome },
    Replay,
    Shutdown,
    SetPreprocessor { key: String, preprocessor: H },
    RemovePreprocessor(String),
}

/// A change of the player's published playback state.
#[derive(Clone, Copy, Debug, PartialEq, Eq)]
pub enum PlaybackUpdate<S> {
    /// A new video: metadata cleared, nothing shown yet, paused or not.
    ResetForOpen(bool),
    Paused(bool),
    Scrubbing(bool),
    /// Show the seek's target position at once.
    SeekPreview(S),
    /// Playing again from the start.
    ResetForReplay,
}

/// The decoder loop's state.
pub struct PlayerLoop<S, H> {
    pub input_path: Option<String>,
    pub paused: bool,
    pub prime_first_frame: bool,
    pub has_frame: bool,
    pub scrubbing: bool,
    pub pending_seek: Option<S>,
    pub pending_seek_frame: Option<u64>,
    pub seek_serial: Option<u64>,
    pub open_requested: bool,
    pub open_start_frame: Option<u64>,
    pub preprocessors: Vec<PreprocessorEntry<H>>,
    pub refresh_cached: bool,
}

impl<S: Copy, H> PlayerLoop<S, H> {
    /// A loop with nothing open.
    pub fn new() -> (res: PlayerLoop<S, H>)
        ensures
            res.input_path is None,
            !res.paused,
            !res.prime_first_frame,
            !res.has_frame,
            !res.scrubbing,
            res.pending_seek is None,
            res.pending_seek_frame is None,
            res.seek_serial is None,
            !res.open_requested,
            res.open_start_frame is None,
            res.preprocessors@.len() == 0,
            !res.refresh_cached,
    {
        PlayerLoop {
            input_path: None,
            paused: false,
            prime_first_frame: false,
            has_frame: false,
            scrubbing: false,
            pending_seek: None,
            pending_seek_frame: None,
            seek_serial: None,
            open_requested: false,
            open_start_frame: None,
            preprocessors: Vec::new(),
            refresh_cached: false,
        }
    }

    /// Applies one command. Returns whether the loop goes on (only a
    /// shutdown stops it) and the playback updates to publish, in order.
    pub fn handle_command(&mut self, command: PlayerCommand<S, H>) -> (res: (bool, Vec<PlaybackUpdate<S>>))
        ensures
            match command {
                PlayerCommand::Shutdown => {
                    &&& !res.0
                    &&& res.1@ == Seq::<PlaybackUpdate<S>>::empty()
                    &&& final(self).input_path is None
                    &&& !final(self).paused
                    &&& !final(self).prime_first_frame
                    &&& !final(self).has_frame
                    &&& !final(self).scrubbing
                    &&& final(self).pending_seek is None
                    &&& final(self).pending_seek_frame is None
                    &&& final(self).seek_serial is None
                    &&& !final(self).open_requested
                    &&& final(self).open_start_frame is None
                    &&& final(self).preprocessors@.len() == 0
                    &&& !final(self).refresh_cached
                },
                PlayerCommand::Open(path, options) => {
                    &&& res.0
                    &&& res.1@ == seq![PlaybackUpdate::<S>::ResetForOpen(options.paused)]
                    &&& final(self).input_path == Some(path)
                    &&& final(self).paused == options.paused
                    &&& final(self).prime_first_frame == options.paused
                    &&& !final(self).has_frame
                    &&& !final(self).scrubbing
                    &&& final(self).pending_seek is None
                    &&& final(self).pending_seek_frame is None
                    &&& final(self).seek_serial is None
                    &&& final(self).open_requested
                    &&& final(self).open_start_frame == options.start_frame
                    &&& final(self).preprocessors@ == old(self).preprocessors@
                    &&& final(self).refresh_cached == old(self).refresh_cached
                },
                PlayerCommand::Play => {
                    &&& res.0
                    &&& res.1@ == seq![PlaybackUpdate::<S>::Paused(false)]
                    &&& !final(self).paused
                    &&& unchanged_but_paused(*old(self), *final(self))
                },
                PlayerCommand::Pause => {
                    &&& res.0
                    &&& res.1@ == seq![PlaybackUpdate::<S>::Paused(true)]
                    &&& final(self).paused
                    &&& unchanged_but_paused(*old(self), *final(self))
                },
                PlayerCommand::TogglePause => {
                    &&& res.0
                    &&& res.1@ == seq![PlaybackUpdate::<S>::Paused(!old(self).paused)]
                    &&& final(self).paused == !old(self).paused
                    &&& unchanged_but_paused(*old(self), *final(self))
                },
                PlayerCommand::BeginScrub => {
                    &&& res.0
                    &&& res.1@ == seq![PlaybackUpdate::<S>::Scrubbing(true)]
                    &&& final(self).scrubbing
                    &&& unchanged_but_scrubbing(*old(self), *final(self))
                },
                PlayerCommand::EndScrub => {
                    &&& res.0
                    &&& res.1@ == seq![PlaybackUpdate::<S>::Scrubbing(false)]
                    &&& !final(self).scrubbing
                    &&& unchanged_but_scrubbing(*old(self), *final(self))
                },
                PlayerCommand::Seek { seek, frame, outcome } => {
                    &&& res.0
                    &&& res.1@ == seq![PlaybackUpdate::SeekPreview(seek)]
                    &&& final(self).open_start_frame is None
                    &&& final(self).pending_seek_frame == frame
                    &&& match outcome {
                        SeekOutcome::Started(serial) => {
                            &&& final(self).pending_seek is None
                            &&& final(self).seek_serial == Some(serial)
                            &&& final(self).open_requested == old(self).open_requested
                        },
                        _ => {
                            &&& final(self).pending_seek == Some(seek)
                            &&& final(self).seek_serial is None
                            &&& final(self).open_requested
                        },
                    }
                    &&& final(self).input_path == old(self).input_path
                    &&& final(self).paused == old(self).paused
                    &&& final(self).prime_first_frame == old(self).prime_first_frame
                    &&& final(self).has_frame == old(self).has_frame
                    &&& final(self).scrubbing == old(self).scrubbing
                    &&& final(self).preprocessors@ == old(self).preprocessors@
                    &&& final(self).refresh_cached == old(self).refresh_cached
                },
                PlayerCommand::Replay => {
                    &&& res.0
                    &&& res.1@ == (if old(self).scrubbing {
                        seq![
                            PlaybackUpdate::<S>::Paused(false),
                            PlaybackUpdate::<S>::Scrubbing(false),
                            PlaybackUpdate::<S>::ResetForReplay,
                        ]
                    } else {
                        seq![PlaybackUpdate::<S>::Paused(false), PlaybackUpdate::<S>::ResetForReplay]
                    })
                    &&& !final(self).paused
                    &&& !final(self).scrubbing
                    &&& final(self).pending_seek is None
                    &&& final(self).pending_seek_frame is None
                    &&& final(self).seek_serial is None
                    &&& final(self).open_requested
                    &&& final(self).open_start_frame is None
                    &&& final(self).input_path == old(self).input_path
                    &&& final(self).prime_first_frame == old(self).prime_first_frame
                    &&& final(self).has_frame == old(self).has_frame
                    &&& final(self).preprocessors@ == old(self).preprocessors@
                    &&& final(self).refresh_cached == old(self).refresh_cached
                },
                PlayerCommand::SetPreprocessor { key, preprocessor } => {
                    &&& res.0
                    &&& res.1@ == Seq::<PlaybackUpdate<S>>::empty()
                    &&& (if find_key(old(self).preprocessors@, key@) >= 0 {
                        final(self).preprocessors@ == old(self).preprocessors@.update(
                            find_key(old(self).preprocessors@, key@),
                            PreprocessorEntry {
                                key: old(self).preprocessors@[find_key(
                                    old(self).preprocessors@,
                                    key@,
                                )].key,
                                hook: preprocessor,
                            },
                        )
                    } else {
                        final(self).preprocessors@ == old(self).preprocessors@.push(
                            PreprocessorEntry { key, hook: preprocessor },
                        )
                    })
                    &&& final(self).refresh_cached
                    &&& unchanged_but_hooks(*old(self), *final(self))
                },
                PlayerCommand::RemovePreprocessor(key) => {
                    &&& res.0
                    &&& res.1@ == Seq::<PlaybackUpdate<S>>::empty()
                    &&& final(self).preprocessors@ == without_key(old(self).preprocessors@, key@)
                    &&& final(self).refresh_cached == (old(self).refresh_cached
                        || final(self).preprocessors@.len() != old(self).preprocessors@.len())
                    &&& unchanged_but_hooks(*old(self), *final(self))
                },
            },
    {
        let mut updates: Vec<PlaybackUpdate<S>> = Vec::new();
        match command {
            PlayerCommand::Shutdown => {
                self.input_path = None;
                self.paused = false;
                self.prime_first_frame = false;
                self.has_frame = false;
                self.scrubbing = false;
                self.pending_seek = None;
                self.pending_seek_frame = None;
                self.seek_serial = None;
                self.open_requested = false;
                self.open_start_frame = None;
                self.preprocessors.clear();
                self.refresh_cached = false;
                return (false, updates);
            },
            PlayerCommand::Open(path, options) => {
                self.input_path = Some(path);
                self.paused = options.paused;
                self.prime_first_frame = options.paused;
                self.has_frame = false;
                self.scrubbing = false;
                self.pending_seek = None;
                self.pending_seek_frame = None;
                self.seek_serial = None;
                self.open_requested = true;
                self.open_start_frame = options.start_frame;
                updates.push(PlaybackUpdate::ResetForOpen(options.paused));
            },
            PlayerCommand::Play => {
                self.paused = false;
                updates.push(PlaybackUpdate::Paused(false));
            },
            PlayerCommand::Pause => {
                self.paused = true;
                updates.push(PlaybackUpdate::Paused(true));
            },
            PlayerCommand::TogglePause => {
                self.paused = !self.paused;
                updates.push(PlaybackUpdate::Paused(self.paused));
            },
            PlayerCommand::BeginScrub => {
                self.scrubbing = true;
                updates.push(PlaybackUpdate::Scrubbing(true));
            },
            PlayerCommand::EndScrub => {
                self.scrubbing = false;
                updates.push(PlaybackUpdate::Scrubbing(false));
            },
            PlayerCommand::Seek { seek, frame, outcome } => {
                self.open_start_frame = None;
                self.pending_seek_frame = frame;
                updates.push(PlaybackUpdate::SeekPreview(seek));
                match outcome {
                    SeekOutcome::Started(serial) => {
                        self.pending_seek = None;
                        self.seek_serial = Some(serial);
                    },
                    _ => {
                        self.pending_seek = Some(seek);
                        self.seek_serial = None;
                        self.open_requested = true;
                    },
                }
            },
            PlayerCommand::Replay => {
                self.paused = false;
                updates.push(PlaybackUpdate::Paused(false));
                if self.scrubbing {
                    self.scrubbing = false;
                    updates.push(PlaybackUpdate::Scrubbing(false));
                }
                self.pending_seek = None;
                self.pending_seek_frame = None;
                self.seek_serial = None;
                self.open_requested = true;
                self.open_start_frame = None;
                updates.push(PlaybackUpdate::ResetForReplay);
            },
            PlayerCommand::SetPreprocessor { key, preprocessor } => {
                if upsert_preprocessor(&mut self.preprocessors, key, preprocessor) {
                    self.refresh_cached = true;
                }
            },
            PlayerCommand::RemovePreprocessor(key) => {
                if remove_preprocessor(&mut self.preprocessors, key.as_str()) {
                    self.refresh_cached = true;
                }
            },
        }
        (true, updates)
    }
}

/// Only the paused flag may differ between `a` and `b`.
pub open spec fn unchanged_but_paused<S, H>(a: PlayerLoop<S, H>, b: PlayerLoop<S, H>) -> bool {
    &&& b.input_path == a.input_path
    &&& b.prime_first_frame == a.prime_first_frame
    &&& b.has_frame == a.has_frame
    &&& b.scrubbing == a.scrubbing
    &&& b.pending_seek == a.pending_seek
    &&& b.pending_seek_frame == a.pending_seek_frame
    &&& b.seek_serial == a.seek_serial
    &&& b.open_requested == a.open_requested
    &&& b.open_start_frame == a.open_start_frame
    &&& b.preprocessors@ == a.preprocessors@
    &&& b.refresh_cached == a.refresh_cached
}

/// Only the scrubbing flag may differ between `a` and `b`.
pub open spec fn unchanged_but_scrubbing<S, H>(a: PlayerLoop<S, H>, b: PlayerLoop<S, H>) -> bool {
    &&& b.input_path == a.input_path
    &&& b.paused == a.paused
    &&& b.prime_first_frame == a.prime_first_frame
    &&& b.has_frame == a.has_frame
    &&& b.pending_seek == a.pending_seek
    &&& b.pending_seek_frame == a.pending_seek_frame
    &&& b.seek_serial == a.seek_serial
    &&& b.open_requested == a.open_requested
    &&& b.open_start_frame == a.open_start_frame
    &&& b.preprocessors@ == a.preprocessors@
    &&& b.refresh_cached == a.refresh_cached
}

/// Only the hooks and the redraw flag may differ between `a` and `b`.
pub open spec fn unchanged_but_hooks<S, H>(a: PlayerLoop<S, H>, b: PlayerLoop<S, H>) -> bool {
    &&& b.input_path == a.input_path
    &&& b.paused == a.paused
    &&& b.prime_first_frame == a.prime_first_frame
    &&& b.has_frame == a.has_frame
    &&& b.scrubbing == a.scrubbing
    &&& b.pending_seek == a.pending_seek
    &&& b.pending_seek_frame == a.pending_seek_frame
    &&& b.seek_serial == a.seek_serial
    &&& b.open_requested == a.open_requested
    &&& b.open_start_frame == a.open_start_frame
}

/// Whether no two entries of `s` share a key.
pub open spec fn keys_distinct<H>(s: Seq<PreprocessorEntry<H>>) -> bool {
    forall|i: int, j: int| 0 <= i < j < s.len() ==> #[trigger] s[i].key@ != #[trigger] s[j].key@
}

/// After a removal no hook is left under the key, and the others keep
/// their order.
pub proof fn lemma_removed_key_absent<H>(s: Seq<PreprocessorEntry<H>>, key: Seq<char>)
    ensures
        forall|i: int| 0 <= i < without_key(s, key).len() ==> #[trigger] without_key(s, key)[i].key@ != key,
        without_key(s, key).len() <= s.len(),
    decreases s.len(),
{
    if s.len() > 0 {
        lemma_removed_key_absent(s.drop_last(), key);
    }
}

/// Installing a hook never puts two hooks under one key.
pub proof fn lemma_upsert_keeps_keys_distinct<H>(s: Seq<PreprocessorEntry<H>>, key: String, hook: H)
    requires
        keys_distinct(s),
    ensures
        find_key(s, key@) >= 0 ==> keys_distinct(
            s.update(find_key(s, key@), PreprocessorEntry { key: s[find_key(s, key@)].key, hook }),
        ),
        find_key(s, key@) < 0 ==> keys_distinct(s.push(PreprocessorEntry { key, hook })),
{
    if find_key(s, key@) < 0 {
        let t = s.push(PreprocessorEntry { key, hook });
        assert forall|i: int, j: int| 0 <= i < j < t.len() implies #[trigger] t[i].key@ != #[trigger] t[j].key@ by {
            if j == s.len() {
                if t[i].key@ == key@ {
                    lemma_some_first_key(s, key@, i);
                }
            } else {
                assert(t[i] == s[i] && t[j] == s[j]);
            }
        }
    } else {
        let f = find_key(s, key@);
        assert(is_first_key(s, key@, f));
        let t = s.update(f, PreprocessorEntry { key: s[f].key, hook });
        assert forall|i: int, j: int| 0 <= i < j < t.len() implies #[trigger] t[i].key@ != #[trigger] t[j].key@ by {
            assert(t[i].key == s[i].key && t[j].key == s[j].key);
        }
    }
}

/// When some entry has `key`, some entry is the first to have it.
proof fn lemma_some_first_key<H>(s: Seq<PreprocessorEntry<H>>, key: Seq<char>, i: int)
    requires
        0 <= i < s.len(),
        s[i].key@ == key,
    ensures
        exists|k: int| is_first_key(s, key, k),
    decreases i,
{
    if exists|m: int| 0 <= m < i && s[m].key@ == key {
        let m = choose|m: int| 0 <= m < i && s[m].key@ == key;
        lemma_some_first_key(s, key, m);
    } else {
        assert(is_first_key(s, key, i));
    }
}

} // verus!
