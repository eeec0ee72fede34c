use vstd::prelude::*;

use crate::config::StftConfig;
use crate::frames::{copy_window, frame_count, frame_count_spec, lemma_window_in_bounds, windows_spec};

verus! {

/// Why a spectrum could not join a spectrogram.
#[derive(Clone, Copy, Debug, PartialEq, Eq, Structural)]
pub enum ShapeError {
    /// Frame `frame` came out with `len` values instead of one per window sample.
    SpectrumLength { frame: usize, len: usize },
}

/// A time-ordered sequence of spectra, all of the same length.
pub struct Spectrogram<T> {
    window_size: usize,
    frames: Vec<Vec<T>>,
}

impl<T> View for Spectrogram<T> {
    type V = Seq<Seq<T>>;

    /// The spectra, frame by frame, each as a sequence of bin values.
    closed spec fn view(&self) -> Seq<Seq<T>> {
        Seq::new(self.frames.len() as nat, |i: int| self.frames[i]@)
    }
}

impl<T> Spectrogram<T> {
    /// Length every spectrum has.
    pub closed spec fn spectrum_len(&self) -> nat {
        self.window_size as nat
    }

    /// Well-formedness: every spectrum has the spectrogram's window length.
    pub open spec fn uniform_view(&self) -> bool {
        forall|i: int| 0 <= i < self@.len() ==> #[trigger] self@[i].len() == self.spectrum_len()
    }

    /// An empty spectrogram for windows of `window_size` samples.
    pub fn new(window_size: usize) -> (s: Spectrogram<T>)
        ensures
            s@ == Seq::<Seq<T>>::empty(),
            s.spectrum_len() == window_size,
            s.uniform_view(),
    {
        let s = Spectrogram { window_size, frames: Vec::new() };
        assert(s@ =~= Seq::<Seq<T>>::empty());
        s
    }

    /// Appends one spectrum as the next frame; one of the wrong length is refused
    /// and the spectrogram is left as it was.
    pub fn push(&mut self, spectrum: Vec<T>) -> (r: Result<(), ShapeError>)
        requires
            old(self).uniform_view(),
        ensures
            final(self).spectrum_len() == old(self).spectrum_len(),
            final(self).uniform_view(),
            r is Ok <==> spectrum.len() == old(self).spectrum_len(),
            r is Ok ==> final(self)@ == old(self)@.push(spectrum@),
            r is Err ==> final(self)@ == old(self)@ && r == Err::<(), ShapeError>(
                ShapeError::SpectrumLength { frame: old(self)@.len() as usize, len: spectrum.len() },
            ),
    {
        if spectrum.len() != self.window_size {
            return Err(ShapeError::SpectrumLength { frame: self.frames.len(), len: spectrum.len() });
        }
        let ghost before = self@;
        let ghost added = spectrum@;
        self.frames.push(spectrum);
        assert(self@ =~= before.push(added));
        Ok(())
    }

    /// Number of frames (time steps).
    pub fn frame_count(&self) -> (r: usize)
        ensures
            r == self@.len(),
    {
        self.frames.len()
    }

    /// Number of values in every spectrum.
    pub fn window_size(&self) -> (r: usize)
        ensures
            r == self.spectrum_len(),
    {
        self.window_size
    }

    /// The spectrum of frame `i`.
    pub fn frame(&self, i: usize) -> (r: &Vec<T>)
        requires
            self.uniform_view(),
            i < self@.len(),
        ensures
            r@ == self@[i as int],
            r.len() == self.spectrum_len(),
    {
        proof {
            assert(self.frames[i as int]@ == self@[i as int]);
        }
        &self.frames[i]
    }

    /// The bin value at frame `frame`, bin `bin`.
    pub fn get(&self, frame: usize, bin: usize) -> (r: &T)
        requires
            self.uniform_view(),
            frame < self@.len(),
            bin < self.spectrum_len(),
        ensures
            *r == self@[frame as int][bin as int],
    {
        proof {
            assert(self.frames[frame as int]@ == self@[frame as int]);
        }
        &self.frames[frame][bin]
    }
}

/// `output` is a spectrum that `transform` may return for a window holding `input`.
pub open spec fn transformed<T, U, F: Fn(Vec<T>) -> Vec<U>>(
    transform: F,
    input: Seq<T>,
    output: Seq<U>,
) -> bool {
    exists|v: Vec<T>, o: Vec<U>| v@ == input && o@ == output && #[trigger] transform.ensures((v,), o)
}

/// `s` is a spectrogram of `samples` under `config`: one spectrum per window,
/// in order, each one that `transform` may return for that window.
pub open spec fn is_stft_of<T, U, F: Fn(Vec<T>) -> Vec<U>>(
    s: Spectrogram<U>,
    samples: Seq<T>,
    config: StftConfig,
    transform: F,
) -> bool {
    let wins = windows_spec(samples, config.window_size as nat, config.hop_size as nat);
    &&& s.spectrum_len() == config.window_size
    &&& s.uniform_view()
    &&& s@.len() == wins.len()
    &&& forall|i: int| 0 <= i < s@.len() ==> #[trigger] transformed(transform, wins[i], s@[i])
}

/// `transform` is deterministic on window contents: equal windows give equal spectra.
pub open spec fn deterministic<T, U, F: Fn(Vec<T>) -> Vec<U>>(transform: F) -> bool {
    forall|v1: Vec<T>, v2: Vec<U>, w1: Vec<T>, w2: Vec<U>|
        #[trigger] transform.ensures((v1,), v2) && #[trigger] transform.ensures((w1,), w2) && v1@
            == w1@ ==> v2@ == w2@
}

/// Running the engine twice on the same samples with a deterministic transform
/// gives the same spectrogram, value for value.
pub proof fn lemma_stft_deterministic<T, U, F: Fn(Vec<T>) -> Vec<U>>(
    samples: Seq<T>,
    config: StftConfig,
    transform: F,
    a: Spectrogram<U>,
    b: Spectrogram<U>,
)
    requires
        deterministic(transform),
        is_stft_of(a, samples, config, transform),
        is_stft_of(b, samples, config, transform),
    ensures
        a@ == b@,
{
    let wins = windows_spec(samples, config.window_size as nat, config.hop_size as nat);
    assert forall|i: int| 0 <= i < a@.len() implies a@[i] == b@[i] by {
        assert(transformed(transform, wins[i], a@[i]));
        assert(transformed(transform, wins[i], b@[i]));
        let (va, oa) = choose|v: Vec<T>, o: Vec<U>|
            v@ == wins[i] && o@ == a@[i] && #[trigger] transform.ensures((v,), o);
        let (vb, ob) = choose|v: Vec<T>, o: Vec<U>|
            v@ == wins[i] && o@ == b@[i] && #[trigger] transform.ensures((v,), o);
        assert(transform.ensures((va,), oa) && transform.ensures((vb,), ob));
    }
    assert(a@ =~= b@);
}

/// Short-time transform: cuts `samples` into the windows of `config` and turns
/// each window, in order, into one spectrum with `transform`. Fails at the first
/// spectrum whose length is not the window length.
pub fn generate_spectrogram<T: Copy, U, F: Fn(Vec<T>) -> Vec<U>>(
    samples: &Vec<T>,
    config: &StftConfig,
    transform: F,
) -> (r: Result<Spectrogram<U>, ShapeError>)
    requires
        config.valid(),
        forall|v: Vec<T>| #[trigger] transform.requires((v,)),
    ensures
        (forall|v: Vec<T>, o: Vec<U>| #[trigger] transform.ensures((v,), o) ==> o.len() == v.len())
            ==> r is Ok,
        r is Ok ==> is_stft_of(r->Ok_0, samples@, *config, transform),
        r is Err ==> exists|v: Vec<T>, o: Vec<U>|
            #[trigger] transform.ensures((v,), o) && v.len() == config.window_size
                && o.len() != config.window_size,
{
    let n = samples.len();
    let w = config.window_size;
    let h = config.hop_size;
    let count = frame_count(n, config);
    let ghost wins = windows_spec(samples@, w as nat, h as nat);
    let mut out: Spectrogram<U> = Spectrogram::new(w);
    let mut f: usize = 0;
    while f < count
        invariant
            count == frame_count_spec(n as nat, w as nat, h as nat),
            wins == windows_spec(samples@, w as nat, h as nat),
            n == samples.len(),
            w == config.window_size,
            h == config.hop_size,
            config.valid(),
            forall|v: Vec<T>| #[trigger] transform.requires((v,)),
            f <= count,
            out@.len() == f,
            out.spectrum_len() == w,
            out.uniform_view(),
            forall|i: int| 0 <= i < f ==> #[trigger] transformed(transform, wins[i], out@[i]),
        decreases count - f,
    {
        proof {
            lemma_window_in_bounds(f as nat, n as nat, w as nat, h as nat);
        }
        let window = copy_window(samples, f * h, w);
        let ghost wv = window;
        let spectrum = transform(window);
        let ghost sv = spectrum;
        let ghost before = out@;
        match out.push(spectrum) {
            Ok(()) => {},
            Err(e) => {
                assert(transform.ensures((wv,), sv));
                return Err(e);
            },
        }
        proof {
            assert(transform.ensures((wv,), sv));
            assert(wv@ == wins[f as int]);
            assert(out@ == before.push(sv@));
            assert(out@[f as int] == sv@);
            assert forall|i: int| 0 <= i < f + 1 implies #[trigger] transformed(
                transform,
                wins[i],
                out@[i],
            ) by {
                if i < f {
                    assert(out@[i] == before[i]);
                    assert(transformed(transform, wins[i], before[i]));
                } else {
                    assert(wv@ == wins[i] && sv@ == out@[i]);
                }
            }
        }
        f = f + 1;
    }
    assert(out@.len() == wins.len());
    Ok(out)
}

} // verus!
