use vstd::prelude::*;

use openh264::encoder::Encoder;

use crate::quality::{encode_step, EncodeError, EncodedFrame, QualityConfig, QualityEncoder, RawFrame};
use crate::text::{str_eq, string_views};

verus! {

/// Position of the first name equal to `name`, or the length when there is none.
pub open spec fn name_index(names: Seq<Seq<char>>, name: Seq<char>) -> int
    decreases names.len(),
{
    if names.len() == 0 {
        0
    } else if names[0] == name {
        0
    } else {
        1 + name_index(names.drop_first(), name)
    }
}

/// The names after installing `name`: unchanged when it is already there, else extended.
pub open spec fn names_after_add(names: Seq<Seq<char>>, name: Seq<char>) -> Seq<Seq<char>> {
    if name_index(names, name) < names.len() {
        names
    } else {
        names.push(name)
    }
}

/// No name occurs twice.
pub open spec fn names_unique(names: Seq<Seq<char>>) -> bool {
    forall|i: int, j: int| 0 <= i < names.len() && 0 <= j < names.len() && i != j ==> names[i] != names[j]
}

pub proof fn lemma_name_index(names: Seq<Seq<char>>, name: Seq<char>)
    ensures
        0 <= name_index(names, name) <= names.len(),
        name_index(names, name) < names.len() ==> names[name_index(names, name)] == name,
        forall|j: int| 0 <= j < name_index(names, name) ==> names[j] != name,
    decreases names.len(),
{
    if names.len() > 0 && names[0] != name {
        lemma_name_index(names.drop_first(), name);
        assert forall|j: int| 0 <= j < name_index(names, name) implies names[j] != name by {
            if j > 0 {
                assert(names[j] == names.drop_first()[j - 1]);
            }
        }
    }
}

/// A stream is installed at most once by name: adding a name twice yields the same stream,
/// and the second addition changes nothing.
pub proof fn lemma_add_idempotent(names: Seq<Seq<char>>, name: Seq<char>)
    ensures
        name_index(names_after_add(names, name), name) == name_index(names, name),
        names_after_add(names_after_add(names, name), name) == names_after_add(names, name),
        name_index(names_after_add(names, name), name) < names_after_add(names, name).len(),
{
    lemma_name_index(names, name);
    let n1 = names_after_add(names, name);
    lemma_name_index(n1, name);
    if name_index(names, name) == names.len() {
        let k = name_index(n1, name);
        assert(n1[names.len() as int] == name);
        if k < names.len() {
            assert(n1[k] == names[k]);
        }
    }
}

/// What `add_quality_stream` did: the stream's position, and whether it was created.
pub struct AddedStream {
    pub index: usize,
    pub created: bool,
}

/// The result of offering one frame to one quality stream.
pub struct StreamOutput {
    pub quality: String,
    pub result: Result<Option<EncodedFrame>, EncodeError>,
}

/// The set of quality streams, their track writers, and the capture state.
pub struct MultiStreamManager {
    pub encoders: Vec<QualityEncoder>,
    /// `(quality, peer uuid)` of each running track writer.
    pub writers: Vec<(String, String)>,
    pub capture_running: bool,
    pub shutdown_signal: bool,
}

impl MultiStreamManager {
    /// Names of the installed streams, in order.
    pub open spec fn names(&self) -> Seq<Seq<char>> {
        self.encoders@.map_values(|e: QualityEncoder| e.config.name@)
    }

    /// `(quality, peer uuid)` of each running track writer, as character sequences.
    pub open spec fn writer_keys(&self) -> Seq<(Seq<char>, Seq<char>)> {
        self.writers@.map_values(|w: (String, String)| (w.0@, w.1@))
    }

    /// Every encoder is well formed and names are unique.
    pub open spec fn wf(&self) -> bool {
        &&& forall|i: int| 0 <= i < self.encoders@.len() ==> (#[trigger] self.encoders@[i]).wf()
        &&& names_unique(self.names())
    }

    /// No stream, no writer, capture stopped.
    pub fn new() -> (r: Self)
        ensures
            r.wf(),
            r.names().len() == 0,
            r.writers@.len() == 0,
            !r.capture_running,
            !r.shutdown_signal,
    {
        MultiStreamManager {
            encoders: Vec::new(),
            writers: Vec::new(),
            capture_running: false,
            shutdown_signal: false,
        }
    }

    /// Position of the stream named `name`, if installed.
    pub fn stream_index(&self, name: &str) -> (r: Option<usize>)
        ensures
            r matches Some(i) ==> i == name_index(self.names(), name@) && i < self.names().len(),
            r is None ==> name_index(self.names(), name@) == self.names().len(),
    {
        proof {
            lemma_name_index(self.names(), name@);
        }
        let mut i: usize = 0;
        while i < self.encoders.len()
            invariant
                i <= self.encoders.len(),
                self.names().len() == self.encoders.len(),
                forall|j: int| 0 <= j < i ==> self.names()[j] != name@,
            decreases self.encoders.len() - i,
        {
            if str_eq(self.encoders[i].config.name.as_str(), name) {
                proof {
                    lemma_name_index(self.names(), name@);
                    assert(self.names()[i as int] == name@);
                    if (i as int) > name_index(self.names(), name@) {
                        let k = name_index(self.names(), name@);
                        assert(self.names()[k] == name@);
                    }
                }
                return Some(i);
            }
            i = i + 1;
        }
        proof {
            if name_index(self.names(), name@) < self.names().len() {
                let k = name_index(self.names(), name@);
                assert(self.names()[k] == name@);
            }
        }
        None
    }

    /// Marks capture as started; true when it was not running, so that the caller starts it.
    pub fn start_capture(&mut self) -> (r: bool)
        ensures
            r == !old(self).capture_running,
            final(self).capture_running,
            final(self).encoders == old(self).encoders,
            final(self).writers == old(self).writers,
            final(self).shutdown_signal == old(self).shutdown_signal,
    {
        if self.capture_running {
            false
        } else {
            self.capture_running = true;
            true
        }
    }

    /// Installs a stream for `config` around `encoder`, unless one of that name exists, in
    /// which case that stream is returned and nothing changes.
    pub fn add_quality_stream(&mut self, config: QualityConfig, encoder: Encoder, now_ns: u64) -> (r: Result<
        AddedStream,
        &'static str,
    >)
        requires
            old(self).wf(),
        ensures
            final(self).wf(),
            final(self).writers == old(self).writers,
            final(self).capture_running == old(self).capture_running,
            final(self).shutdown_signal == old(self).shutdown_signal,
            !config.valid() ==> (r matches Err(m) && m@ == config.error_message()),
            config.valid() && name_index(old(self).names(), config.name@) < old(self).names().len()
                ==> (r matches Ok(a) && a.index == name_index(old(self).names(), config.name@)
                && !a.created && final(self).encoders == old(self).encoders),
            r matches Ok(a) ==> (a.index == name_index(old(self).names(), config.name@)
                && final(self).names() == names_after_add(old(self).names(), config.name@)
                && a.created == (name_index(old(self).names(), config.name@) == old(self).names().len())),
            r is Err ==> final(self).encoders == old(self).encoders,
            config.valid() && config.max_keyframe_interval > 0 && config.width * config.height * 4
                <= usize::MAX ==> r is Ok,
    {
        if let Err(m) = config.validate() {
            return Err(m);
        }
        proof {
            lemma_name_index(self.names(), config.name@);
        }
        match self.stream_index(config.name.as_str()) {
            Some(i) => {
                return Ok(AddedStream { index: i, created: false });
            },
            None => {},
        }
        if config.max_keyframe_interval == 0 {
            return Err("keyframe interval must be positive");
        }
        let pixels = match (config.width as usize).checked_mul(config.height as usize) {
            Some(p) => p,
            None => return Err("dimensions too large"),
        };
        if pixels.checked_mul(4).is_none() {
            return Err("dimensions too large");
        }
        let ghost old_names = self.names();
        let ghost name = config.name@;
        let index = self.encoders.len();
        let q = QualityEncoder::new(config, encoder, now_ns);
        self.encoders.push(q);
        proof {
            assert(self.names() =~= old_names.push(name));
            assert forall|i: int| 0 <= i < self.encoders@.len() implies (
            #[trigger] self.encoders@[i]).wf() by {
                if i < index {
                    assert(self.encoders@[i] == old(self).encoders@[i]);
                }
            }
            assert forall|i: int, j: int|
                0 <= i < self.names().len() && 0 <= j < self.names().len() && i != j implies self.names()[i]
                != self.names()[j] by {
                if i < index && j < index {
                    assert(self.names()[i] == old_names[i]);
                    assert(self.names()[j] == old_names[j]);
                } else if i == index {
                    assert(self.names()[j] == old_names[j]);
                } else {
                    assert(self.names()[i] == old_names[i]);
                }
            }
        }
        Ok(AddedStream { index, created: true })
    }

    /// Removes the stream named `name`, if installed, with its track writers.
    pub fn remove_quality_stream(&mut self, name: &str)
        requires
            old(self).wf(),
        ensures
            final(self).wf(),
            name_index(old(self).names(), name@) < old(self).names().len() ==> final(self).encoders@
                == old(self).encoders@.remove(name_index(old(self).names(), name@)),
            name_index(old(self).names(), name@) < old(self).names().len() ==> final(self).names()
                == old(self).names().remove(name_index(old(self).names(), name@)),
            name_index(old(self).names(), name@) == old(self).names().len() ==> final(self).encoders
                == old(self).encoders,
            forall|k: int|
                0 <= k < old(self).writer_keys().len() && (#[trigger] old(self).writer_keys()[k]).0
                    != name@ ==> final(self).writer_keys().contains(old(self).writer_keys()[k]),
            forall|k: int|
                0 <= k < final(self).writer_keys().len() ==> old(self).writer_keys().contains(
                    #[trigger] final(self).writer_keys()[k],
                ),
            forall|k: int| 0 <= k < final(self).writer_keys().len() ==> (#[trigger] final(self).writer_keys()[k]).0 != name@,
            final(self).capture_running == old(self).capture_running,
            final(self).shutdown_signal == old(self).shutdown_signal,
    {
        proof {
            lemma_name_index(self.names(), name@);
        }
        if let Some(i) = self.stream_index(name) {
            let ghost old_names = self.names();
            let ghost old_enc = self.encoders@;
            let _removed = self.encoders.remove(i);
            proof {
                assert(self.names() =~= old_names.remove(i as int));
                assert forall|k: int| 0 <= k < self.encoders@.len() implies (
                #[trigger] self.encoders@[k]).wf() by {
                    if k < i {
                        assert(self.encoders@[k] == old_enc[k]);
                    } else {
                        assert(self.encoders@[k] == old_enc[k + 1]);
                    }
                }
                assert forall|a: int, b: int|
                    0 <= a < self.names().len() && 0 <= b < self.names().len() && a != b implies self.names()[a]
                    != self.names()[b] by {
                    let a2 = if a < i {
                        a
                    } else {
                        a + 1
                    };
                    let b2 = if b < i {
                        b
                    } else {
                        b + 1
                    };
                    assert(self.names()[a] == old_names[a2]);
                    assert(self.names()[b] == old_names[b2]);
                }
            }
        }
        proof {
            assert(self.writers@ == old(self).writers@);
            assert(self.writer_keys() == old(self).writer_keys());
        }
        self.drop_writers_of(name);
    }

    /// Names of the installed streams.
    pub fn get_active_qualities(&self) -> (r: Vec<String>)
        ensures
            string_views(r@) == self.names(),
    {
        let mut out: Vec<String> = Vec::new();
        let mut i: usize = 0;
        while i < self.encoders.len()
            invariant
                i <= self.encoders.len(),
                self.names().len() == self.encoders.len(),
                out@.len() == i,
                string_views(out@) == self.names().subrange(0, i as int),
            decreases self.encoders.len() - i,
        {
            let ghost prev = out@;
            let c = self.encoders[i].config.name.clone();
            out.push(c);
            proof {
                assert(string_views(prev) == self.names().subrange(0, i as int));
                assert forall|j: int| 0 <= j < i + 1 implies #[trigger] string_views(out@)[j]
                    == self.names().subrange(0, i + 1)[j] by {
                    if j < i {
                        assert(out@[j] == prev[j]);
                        assert(string_views(prev)[j] == self.names().subrange(0, i as int)[j]);
                    } else {
                        assert(out@[j] == c);
                    }
                }
                assert(string_views(out@) =~= self.names().subrange(0, i + 1));
            }
            i = i + 1;
        }
        proof {
            assert(self.names().subrange(0, i as int) =~= self.names());
        }
        out
    }

    /// Whether a track writer of peer `peer` runs on stream `quality`.
    pub fn has_writer(&self, quality: &str, peer: &str) -> (r: bool)
        ensures
            r == self.writer_keys().contains((quality@, peer@)),
    {
        let mut i: usize = 0;
        while i < self.writers.len()
            invariant
                i <= self.writers.len(),
                self.writer_keys().len() == self.writers.len(),
                forall|k: int| 0 <= k < i ==> self.writer_keys()[k] != (quality@, peer@),
            decreases self.writers.len() - i,
        {
            if str_eq(self.writers[i].0.as_str(), quality) && str_eq(self.writers[i].1.as_str(), peer) {
                proof {
                    assert(self.writer_keys()[i as int] == (quality@, peer@));
                }
                return true;
            }
            proof {
                assert(self.writer_keys()[i as int] == (self.writers@[i as int].0@, self.writers@[i as int].1@));
            }
            i = i + 1;
        }
        false
    }

    /// Registers the track writer of peer `peer` on stream `quality`. Fails when the stream is
    /// not installed; true when the writer is new, so that the caller starts it.
    pub fn add_webrtc_track(&mut self, quality: &str, peer: &str) -> (r: Result<bool, &'static str>)
        requires
            old(self).wf(),
        ensures
            final(self).wf(),
            final(self).encoders == old(self).encoders,
            final(self).capture_running == old(self).capture_running,
            final(self).shutdown_signal == old(self).shutdown_signal,
            name_index(old(self).names(), quality@) == old(self).names().len() ==> (r matches Err(m)
                && m@ == "quality stream not found"@ && final(self).writers == old(self).writers),
            name_index(old(self).names(), quality@) < old(self).names().len() ==> r == Ok::<bool, &'static str>(
                !old(self).writer_keys().contains((quality@, peer@)),
            ),
            final(self).writer_keys() == if r == Ok::<bool, &'static str>(true) {
                old(self).writer_keys().push((quality@, peer@))
            } else {
                old(self).writer_keys()
            },
    {
        if self.stream_index(quality).is_none() {
            return Err("quality stream not found");
        }
        if self.has_writer(quality, peer) {
            return Ok(false);
        }
        self.writers.push((crate::text::owned(quality), crate::text::owned(peer)));
        proof {
            assert(self.writer_keys() =~= old(self).writer_keys().push((quality@, peer@)));
        }
        Ok(true)
    }

    /// Stops the track writer of peer `peer` on stream `quality`; the stream is removed once no
    /// writer of it remains. True when there was such a writer.
    pub fn close_track_write(&mut self, quality: &str, peer: &str) -> (r: bool)
        requires
            old(self).wf(),
        ensures
            final(self).wf(),
            r == old(self).writer_keys().contains((quality@, peer@)),
            !r ==> final(self).writers == old(self).writers && final(self).encoders == old(self).encoders,
            r ==> !final(self).writer_keys().contains((quality@, peer@)),
            final(self).capture_running == old(self).capture_running,
            final(self).shutdown_signal == old(self).shutdown_signal,
    {
        if !self.has_writer(quality, peer) {
            return false;
        }
        let mut kept: Vec<(String, String)> = Vec::new();
        let mut others = false;
        let mut i: usize = 0;
        while i < self.writers.len()
            invariant
                i <= self.writers.len(),
                self.writers@ == old(self).writers@,
                self.encoders == old(self).encoders,
                self.capture_running == old(self).capture_running,
                self.shutdown_signal == old(self).shutdown_signal,
                forall|k: int|
                    0 <= k < kept@.len() ==> (kept@[k].0@, kept@[k].1@) != (quality@, peer@),
            decreases self.writers.len() - i,
        {
            let same_q = str_eq(self.writers[i].0.as_str(), quality);
            let same_p = str_eq(self.writers[i].1.as_str(), peer);
            if !(same_q && same_p) {
                if same_q {
                    others = true;
                }
                let q = self.writers[i].0.clone();
                let p = self.writers[i].1.clone();
                kept.push((q, p));
            }
            i = i + 1;
        }
        self.writers = kept;
        proof {
            assert forall|k: int| 0 <= k < self.writer_keys().len() implies self.writer_keys()[k] != (quality@, peer@) by {
                assert(self.writer_keys()[k] == (self.writers@[k].0@, self.writers@[k].1@));
            }
        }
        if !others {
            self.remove_quality_stream(quality);
        }
        true
    }

    /// Stops everything: raises the stop flag, marks capture stopped, drops every stream and
    /// writer.
    pub fn shutdown(&mut self)
        ensures
            final(self).wf(),
            final(self).shutdown_signal,
            !final(self).capture_running,
            final(self).names().len() == 0,
            final(self).writers@.len() == 0,
    {
        self.shutdown_signal = true;
        self.capture_running = false;
        self.encoders = Vec::new();
        self.writers = Vec::new();
    }

    /// Offers one captured frame at time `now_ns` to every stream, in order, and reports what
    /// each did with it.
    pub fn encode_frame(&mut self, raw: &RawFrame, now_ns: u64) -> (r: Vec<StreamOutput>)
        requires
            old(self).wf(),
        ensures
            final(self).wf(),
            final(self).names() == old(self).names(),
            final(self).writers == old(self).writers,
            r@.len() == old(self).names().len(),
            final(self).encoders@.len() == old(self).encoders@.len(),
            forall|i: int| 0 <= i < r@.len() ==> (#[trigger] r@[i]).quality@ == old(self).names()[i],
            forall|i: int|
                0 <= i < r@.len() ==> encode_step(
                    old(self).encoders@[i],
                    final(self).encoders@[i],
                    raw,
                    now_ns,
                    (#[trigger] r@[i]).result,
                ),
    {
        let mut out: Vec<StreamOutput> = Vec::new();
        let mut i: usize = 0;
        let ghost names = self.names();
        while i < self.encoders.len()
            invariant
                i <= self.encoders.len(),
                names == old(self).names(),
                self.names() == names,
                self.writers == old(self).writers,
                self.wf(),
                out@.len() == i,
                self.encoders@.len() == old(self).encoders@.len(),
                forall|k: int| 0 <= k < i ==> (#[trigger] out@[k]).quality@ == names[k],
                forall|k: int|
                    0 <= k < i ==> encode_step(
                        old(self).encoders@[k],
                        self.encoders@[k],
                        raw,
                        now_ns,
                        (#[trigger] out@[k]).result,
                    ),
                forall|k: int| i <= k < self.encoders@.len() ==> self.encoders@[k] == old(self).encoders@[k],
            decreases self.encoders.len() - i,
        {
            let ghost before = self.encoders@;
            let quality = self.encoders[i].config.name.clone();
            let result = self.encoders[i].encode(raw, now_ns);
            proof {
                assert(self.encoders@ == before.update(i as int, self.encoders@[i as int]));
                assert(self.names() =~= names);
                assert forall|k: int| 0 <= k < i implies encode_step(
                    old(self).encoders@[k],
                    self.encoders@[k],
                    raw,
                    now_ns,
                    out@[k].result,
                ) by {
                    assert(self.encoders@[k] == before[k]);
                }
                assert forall|k: int| 0 <= k < self.encoders@.len() implies (
                #[trigger] self.encoders@[k]).wf() by {
                    if k != i {
                        assert(self.encoders@[k] == before[k]);
                    }
                }
            }
            out.push(StreamOutput { quality, result });
            i = i + 1;
        }
        out
    }

    fn drop_writers_of(&mut self, name: &str)
        ensures
            final(self).encoders == old(self).encoders,
            final(self).capture_running == old(self).capture_running,
            final(self).shutdown_signal == old(self).shutdown_signal,
            forall|k: int| 0 <= k < final(self).writer_keys().len() ==> (#[trigger] final(self).writer_keys()[k]).0 != name@,
            forall|k: int|
                0 <= k < old(self).writer_keys().len() && (#[trigger] old(self).writer_keys()[k]).0 != name@
                    ==> final(self).writer_keys().contains(old(self).writer_keys()[k]),
            forall|k: int|
                0 <= k < final(self).writer_keys().len() ==> old(self).writer_keys().contains(
                    #[trigger] final(self).writer_keys()[k],
                ),
    {
        let mut kept: Vec<(String, String)> = Vec::new();
        let ghost keys = self.writer_keys();
        let mut i: usize = 0;
        while i < self.writers.len()
            invariant
                i <= self.writers.len(),
                self.writers@ == old(self).writers@,
                keys == self.writer_keys(),
                keys.len() == self.writers.len(),
                forall|k: int| 0 <= k < kept@.len() ==> (#[trigger] kept@[k]).0@ != name@,
                forall|k: int| 0 <= k < kept@.len() ==> keys.contains(((#[trigger] kept@[k]).0@, kept@[k].1@)),
                forall|k: int|
                    0 <= k < i && (#[trigger] keys[k]).0 != name@ ==> exists|t: int|
                        0 <= t < kept@.len() && (kept@[t].0@, kept@[t].1@) == keys[k],
            decreases self.writers.len() - i,
        {
            if !str_eq(self.writers[i].0.as_str(), name) {
                let q = self.writers[i].0.clone();
                let p = self.writers[i].1.clone();
                let ghost before = kept@;
                kept.push((q, p));
                proof {
                    assert((kept@[before.len() as int].0@, kept@[before.len() as int].1@) == keys[i as int]);
                    assert forall|k: int| 0 <= k < kept@.len() implies keys.contains(((#[trigger] kept@[k]).0@, kept@[k].1@)) by {
                        if k < before.len() {
                            assert(kept@[k] == before[k]);
                        } else {
                            assert(keys[i as int] == (kept@[k].0@, kept@[k].1@));
                        }
                    }
                    assert forall|k: int|
                        0 <= k < i + 1 && (#[trigger] keys[k]).0 != name@ implies exists|t: int|
                        0 <= t < kept@.len() && (kept@[t].0@, kept@[t].1@) == keys[k] by {
                        if k < i {
                            let t = choose|t: int| 0 <= t < before.len() && (before[t].0@, before[t].1@) == keys[k];
                            assert(kept@[t] == before[t]);
                        } else {
                            assert(k == i);
                        }
                    }
                }
            }
            i = i + 1;
        }
        self.writers = kept;
        proof {
            assert forall|k: int| 0 <= k < self.writer_keys().len() implies keys.contains(
                #[trigger] self.writer_keys()[k],
            ) by {
                assert(self.writer_keys()[k] == (self.writers@[k].0@, self.writers@[k].1@));
            }
            assert forall|k: int|
                0 <= k < keys.len() && (#[trigger] keys[k]).0 != name@ implies self.writer_keys().contains(keys[k]) by {
                let t = choose|t: int| 0 <= t < self.writers@.len() && (self.writers@[t].0@, self.writers@[t].1@) == keys[k];
                assert(self.writer_keys()[t] == keys[k]);
            }
        }
    }
}

} // verus!
