//! What a run is told to do.

use vstd::prelude::*;

verus! {

/// Number of lines that the line buffer keeps when none is given.
pub const DEFAULT_N_ENTRIES: usize = 1024;

/// A set of paths, each held once.
#[derive(Debug)]
pub struct PathSet {
    paths: Vec<String>,
}

impl PathSet {
    #[verifier::type_invariant]
    spec fn inv(self) -> bool {
        forall|i: int, j: int|
            0 <= i < j < self.paths@.len() ==> (#[trigger] self.paths@[i])@ != (
            #[trigger] self.paths@[j])@
    }

    /// The paths in the set.
    pub closed spec fn view(&self) -> Set<Seq<char>> {
        Set::new(|p: Seq<char>| exists|i: int| 0 <= i < self.paths@.len() && self.paths@[i]@ == p)
    }

    pub fn new() -> (s: Self)
        ensures
            s@ == Set::<Seq<char>>::empty(),
    {
        let s = PathSet { paths: Vec::new() };
        assert(s@ =~= Set::<Seq<char>>::empty());
        s
    }

    pub fn contains(&self, path: &String) -> (r: bool)
        ensures
            r == self@.contains(path@),
    {
        let mut i: usize = 0;
        while i < self.paths.len()
            invariant
                i <= self.paths@.len(),
                forall|j: int| 0 <= j < i ==> self.paths@[j]@ != path@,
            decreases self.paths@.len() - i,
        {
            if self.paths[i] == *path {
                return true;
            }
            i += 1;
        }
        false
    }

    /// Puts a path into the set, and tells whether it was new to it.
    pub fn insert(&mut self, path: String) -> (r: bool)
        ensures
            final(self)@ == old(self)@.insert(path@),
            r == !old(self)@.contains(path@),
    {
        proof {
            use_type_invariant(&*self);
        }
        if self.contains(&path) {
            assert(self@.insert(path@) =~= self@);
            return false;
        }
        let ghost before = self.paths@;
        let mut paths: Vec<String> = Vec::new();
        core::mem::swap(&mut self.paths, &mut paths);
        paths.push(path);
        self.paths = paths;
        assert(self@ =~= old(self)@.insert(path@)) by {
            assert forall|p: Seq<char>| self@.contains(p) implies old(self)@.insert(path@).contains(
                p,
            ) by {
                let i = choose|i: int| 0 <= i < self.paths@.len() && self.paths@[i]@ == p;
                if i < before.len() {
                    assert(before[i]@ == p);
                }
            }
            assert forall|p: Seq<char>| old(self)@.insert(path@).contains(p) implies self@.contains(
                p,
            ) by {
                if p == path@ {
                    assert(self.paths@[before.len() as int]@ == p);
                } else {
                    let i = choose|i: int| 0 <= i < before.len() && before[i]@ == p;
                    assert(self.paths@[i]@ == p);
                }
            }
        }
        true
    }
}

impl Clone for PathSet {
    fn clone(&self) -> (r: Self)
        ensures
            r@ == self@,
    {
        proof {
            use_type_invariant(self);
        }
        let mut paths: Vec<String> = Vec::new();
        let mut i: usize = 0;
        while i < self.paths.len()
            invariant
                i <= self.paths@.len(),
                paths@.len() == i,
                forall|j: int| 0 <= j < i ==> paths@[j] == self.paths@[j],
            decreases self.paths@.len() - i,
        {
            paths.push(self.paths[i].clone());
            i += 1;
        }
        assert(paths@ =~= self.paths@);
        PathSet { paths }
    }
}

/// How to play: where to look for recordings, which to leave out, how long
/// a recording may count for when one is chosen, and whether the sound goes
/// to JACK or to the host's own output.
#[derive(Clone)]
pub struct PlayConfig {
    pub excluded_wavs: PathSet,
    pub dirs: Vec<String>,
    pub cap_ms: Option<u32>,
    pub use_jack: bool,
}

/// How to buffer lines: the file whose presence lets them through, and how
/// many are kept.
#[derive(Clone)]
pub struct RingbufConfig {
    pub trigfile: String,
    pub n_entries: usize,
}

/// What a run is for.
#[derive(Clone)]
pub enum Config {
    /// Play grains of the recordings found.
    Play(PlayConfig),
    /// Buffer lines.
    Buf(RingbufConfig),
    /// Try the host's own output with a few seconds of noise.
    Cpal,
}

/// Name of the trigger file when none is given.
pub fn default_trigfile() -> (name: String)
    ensures
        name@ == "trigfile"@,
{
    "trigfile".to_owned()
}

impl RingbufConfig {
    /// The configuration for what was given on the command line, with the
    /// usual trigger file and number of lines for what was not.
    pub fn new(trigfile: Option<String>, n_entries: Option<usize>) -> (cfg: Self)
        ensures
            cfg.trigfile@ == match trigfile {
                Some(name) => name@,
                None => "trigfile"@,
            },
            cfg.n_entries == match n_entries {
                Some(n) => n,
                None => DEFAULT_N_ENTRIES,
            },
    {
        let trigfile: String = match trigfile {
            Some(name) => name,
            None => default_trigfile(),
        };
        let n_entries: usize = match n_entries {
            Some(n) => n,
            None => DEFAULT_N_ENTRIES,
        };
        RingbufConfig { trigfile, n_entries }
    }
}

impl PlayConfig {
    /// The configuration for the directories, the list of excluded paths,
    /// the cap and the output that were given.
    pub fn new(
        dirs: Vec<String>,
        excluded: Vec<String>,
        cap_ms: Option<u32>,
        use_jack: bool,
    ) -> (cfg: Self)
        ensures
            cfg.dirs == dirs,
            cfg.cap_ms == cap_ms,
            cfg.use_jack == use_jack,
            forall|p: Seq<char>|
                cfg.excluded_wavs@.contains(p) <==> exists|i: int|
                    0 <= i < excluded@.len() && (#[trigger] excluded@[i])@ == p,
    {
        let mut rest: Vec<String> = excluded;
        let mut excluded_wavs = PathSet::new();
        while rest.len() > 0
            invariant
                rest@.len() <= excluded@.len(),
                rest@ == excluded@.subrange(0, rest@.len() as int),
                forall|p: Seq<char>|
                    excluded_wavs@.contains(p) <==> exists|i: int|
                        rest@.len() <= i < excluded@.len() && (#[trigger] excluded@[i])@ == p,
            decreases rest@.len(),
        {
            let ghost k = rest@.len() - 1;
            let ghost before = excluded_wavs@;
            let path: String = rest.pop().unwrap();
            assert(path == excluded@[k]);
            excluded_wavs.insert(path);
            assert(rest@ =~= excluded@.subrange(0, k));
            assert forall|p: Seq<char>|
                excluded_wavs@.contains(p) <==> exists|i: int|
                    k <= i < excluded@.len() && (#[trigger] excluded@[i])@ == p by {
                if before.contains(p) {
                    let i = choose|i: int|
                        k + 1 <= i < excluded@.len() && (#[trigger] excluded@[i])@ == p;
                    assert(k <= i < excluded@.len() && excluded@[i]@ == p);
                }
                if p == excluded@[k]@ {
                    assert(k <= k < excluded@.len() && excluded@[k]@ == p);
                }
                if exists|i: int| k <= i < excluded@.len() && (#[trigger] excluded@[i])@ == p {
                    let i = choose|i: int|
                        k <= i < excluded@.len() && (#[trigger] excluded@[i])@ == p;
                    if i != k {
                        assert(k + 1 <= i < excluded@.len() && excluded@[i]@ == p);
                    }
                }
            }
        }
        PlayConfig { excluded_wavs, dirs, cap_ms, use_jack }
    }

    /// Whether a path that the walk came across is to be surveyed.
    pub fn admits(&self, path: &String) -> (r: bool)
        ensures
            r == !self.excluded_wavs@.contains(path@),
    {
        !self.excluded_wavs.contains(path)
    }
}

} // verus!
