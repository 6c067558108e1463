//! The melodic LPX layout: which MIDI note each pad plays, which pads
//! play a note, and how pads are coloured by their place in a scale.
use vstd::prelude::*;
use crate::text::{lines, strip_prefix, strip_prefix_spec, text_lines};

verus! {

/// Whether `p` is one of the 64 note pads of the LPX grid (rows and
/// columns 1..=8; pads with column digit 9 are control pads).
pub open spec fn is_note_pad(p: int) -> bool {
    11 <= p <= 88 && 1 <= p % 10 <= 8
}

/// The MIDI note that note pad `p` plays when the centre pad 45 (row 4,
/// column 5) plays `root`: rows are five semitones apart, columns one.
pub open spec fn pad_note(p: int, root: int) -> int {
    5 * (p / 10 - 1) + p % 10 + root - 20
}

/// The other pad that the layout records beside note pad `p`: the pad one
/// row up and six columns left for the right hand columns below the top
/// row, the pad one row down and five columns right for the left hand
/// columns above the bottom row, and none otherwise.
pub open spec fn recorded_partner(p: int) -> Option<int> {
    let row = p / 10;
    let col = p % 10;
    if p < 80 && col > 5 && col < 9 {
        Some((row + 1) * 10 + col - 6)
    } else if p > 20 && col < 4 {
        Some((row - 1) * 10 + col + 5)
    } else {
        None
    }
}

/// Degree (1..=12) of MIDI note `note` in the chromatic scale rooted at
/// `root`: 1 for the root itself and its octaves.
pub open spec fn scale_degree(note: int, root: int) -> int {
    (note - root) % 12 + 1
}

/// The plain values an `Adapter` holds.
pub struct AdapterView {
    pub midi_map: Seq<u8>,
    pub scale: Seq<u8>,
    pub note_to_pads: Seq<(Option<u8>, Option<u8>)>,
    pub root_note: u8,
    pub root_colour: u8,
    pub scale_colour: u8,
    pub other_colour: u8,
}

/// The pad to note map of a layout rooted at `root`: each note pad maps to
/// its note, every other index to 0.
pub open spec fn midi_map_ok(m: Seq<u8>, root: int) -> bool {
    &&& m.len() == 99
    &&& forall|i: int|
        0 <= i < 99 ==> #[trigger] m[i] == (if is_note_pad(i) { pad_note(i, root) } else { 0 })
}

/// The note to pads table of a layout rooted at `root`: the entry of note
/// `n` names the highest note pad that plays `n`, with the partner recorded
/// for that pad, and is empty when no note pad plays `n`.
pub open spec fn note_to_pads_ok(t: Seq<(Option<u8>, Option<u8>)>, root: int) -> bool {
    &&& t.len() == 128
    &&& forall|n: int| 0 <= n < 128 ==> #[trigger] entry_ok(t[n], n, root, 89)
}

/// `e` is the table entry of note `n` when the note pads below `limit` have
/// been recorded.
pub open spec fn entry_ok(e: (Option<u8>, Option<u8>), n: int, root: int, limit: int) -> bool {
    match e.0 {
        Some(p) => {
            &&& is_note_pad(p as int)
            &&& p < limit
            &&& pad_note(p as int, root) == n
            &&& e.1 == match recorded_partner(p as int) {
                Some(q) => Some(q as u8),
                None => None::<u8>,
            }
            &&& forall|j: int|
                p < j < limit && is_note_pad(j) ==> #[trigger] pad_note(j, root) != n
        },
        None => {
            &&& e.1 is None
            &&& forall|j: int| j < limit && is_note_pad(j) ==> #[trigger] pad_note(j, root) != n
        },
    }
}

/// The layout rooted at `root` with the given scale and colours.
pub open spec fn layout_ok(v: AdapterView) -> bool {
    &&& 19 <= v.root_note <= 104
    &&& midi_map_ok(v.midi_map, v.root_note as int)
    &&& note_to_pads_ok(v.note_to_pads, v.root_note as int)
}

/// The colour of a pad whose note has degree `degree`: the root colour
/// for the root, the scale colour for a degree in the scale, the other
/// colour otherwise.
pub open spec fn degree_colour(v: AdapterView, degree: int) -> u8 {
    if degree == 1 {
        v.root_colour
    } else if v.scale.contains(degree as u8) {
        v.scale_colour
    } else {
        v.other_colour
    }
}

/// The colour pad `pad` shows at rest, or `None` for a pad that plays no
/// note (column digit 0 or 9).
pub open spec fn pad_colour_spec(v: AdapterView, pad: int) -> Option<u8> {
    if 0 < pad % 10 && pad % 10 < 9 {
        Some(degree_colour(v, scale_degree(v.midi_map[pad] as int, v.root_note as int)))
    } else {
        None
    }
}

/// Changes the pad number from the LPX into the note for the synthesiser
/// and knows the colour of each pad.
pub struct Adapter {
    midi_map: Vec<u8>,
    scale: Vec<u8>,
    midi_note_to_pads: Vec<(Option<u8>, Option<u8>)>,
    root_note: u8,
    root_colour: u8,
    scale_colour: u8,
    other_colour: u8,
}

impl View for Adapter {
    type V = AdapterView;

    closed spec fn view(&self) -> AdapterView {
        AdapterView {
            midi_map: self.midi_map@,
            scale: self.scale@,
            note_to_pads: self.midi_note_to_pads@,
            root_note: self.root_note,
            root_colour: self.root_colour,
            scale_colour: self.scale_colour,
            other_colour: self.other_colour,
        }
    }
}

impl Adapter {
    #[verifier::type_invariant]
    closed spec fn inv(self) -> bool {
        layout_ok(self@)
    }

    /// The layout whose centre pad (45: row 4, column 5) plays `root_note`.
    /// The root note must lie in 19..=104 so that every pad plays a MIDI
    /// note (0..=127): the pads span from 19 below the root to 23 above.
    pub fn new(
        scale: &[u8],
        root_note: u8,
        root_colour: u8,
        scale_colour: u8,
        other_colour: u8,
    ) -> (res: Self)
        requires
            19 <= root_note <= 104,
        ensures
            res@.scale == scale@,
            res@.root_note == root_note,
            res@.root_colour == root_colour,
            res@.scale_colour == scale_colour,
            res@.other_colour == other_colour,
            layout_ok(res@),
    {
        let mut midi_map: Vec<u8> = Vec::new();
        let mut midi_note_to_pads: Vec<(Option<u8>, Option<u8>)> = Vec::new();
        let mut k: usize = 0;
        while k < 128
            invariant
                k <= 128,
                midi_map@.len() == if k < 99 { k as int } else { 99 },
                midi_note_to_pads@.len() == k,
                forall|i: int| 0 <= i < midi_map@.len() ==> #[trigger] midi_map@[i] == 0u8,
                forall|i: int| 0 <= i < k ==> #[trigger] midi_note_to_pads@[i] == (None::<u8>, None::<u8>),
            decreases 128 - k,
        {
            if k < 99 {
                midi_map.push(0);
            }
            midi_note_to_pads.push((None, None));
            k = k + 1;
        }
        let mut i: u8 = 11;
        while i < 91
            invariant
                11 <= i <= 91,
                19 <= root_note <= 104,
                midi_map@.len() == 99,
                midi_note_to_pads@.len() == 128,
                forall|j: int|
                    0 <= j < 99 ==> #[trigger] midi_map@[j] == (if is_note_pad(j) && j < i {
                        pad_note(j, root_note as int)
                    } else {
                        0
                    }),
                forall|n: int|
                    0 <= n < 128 ==> #[trigger] entry_ok(midi_note_to_pads@[n], n, root_note as int, i as int),
            decreases 91 - i,
        {
            if i % 10 != 0 && i % 10 != 9 {
                let row: u8 = i / 10;
                let col: u8 = i % 10;
                let d: u8 = 5 * (row - 1) + col;
                let midi_note: u8 = d + root_note - 20;
                assert(midi_note == pad_note(i as int, root_note as int));
                midi_map.set(i as usize, midi_note);
                let partner: Option<u8> = if i < 80 && col > 5 && col < 9 {
                    Some((row + 1) * 10 + col - 6)
                } else if i > 20 && col < 4 {
                    Some((row - 1) * 10 + col + 5)
                } else {
                    None
                };
                let ghost old_t = midi_note_to_pads@;
                midi_note_to_pads.set(midi_note as usize, (Some(i), partner));
                assert forall|n: int| 0 <= n < 128 implies #[trigger] entry_ok(
                    midi_note_to_pads@[n],
                    n,
                    root_note as int,
                    i + 1,
                ) by {
                    if n != midi_note {
                        assert(entry_ok(old_t[n], n, root_note as int, i as int));
                    }
                }
            } else {
                let ghost old_t = midi_note_to_pads@;
                assert forall|n: int| 0 <= n < 128 implies #[trigger] entry_ok(
                    midi_note_to_pads@[n],
                    n,
                    root_note as int,
                    i + 1,
                ) by {
                    assert(entry_ok(old_t[n], n, root_note as int, i as int));
                }
            }
            i = i + 1;
        }
        let mut sc: Vec<u8> = Vec::new();
        let mut j: usize = 0;
        while j < scale.len()
            invariant
                j <= scale.len(),
                sc@ == scale@.take(j as int),
            decreases scale.len() - j,
        {
            sc.push(scale[j]);
            j = j + 1;
            assert(sc@ =~= scale@.take(j as int));
        }
        assert(sc@ =~= scale@);
        assert(note_to_pads_ok(midi_note_to_pads@, root_note as int)) by {
            assert forall|n: int| 0 <= n < 128 implies #[trigger] entry_ok(
                midi_note_to_pads@[n],
                n,
                root_note as int,
                89,
            ) by {
                assert(entry_ok(midi_note_to_pads@[n], n, root_note as int, 91));
            }
        }
        assert(midi_map_ok(midi_map@, root_note as int));
        Adapter {
            midi_map,
            scale: sc,
            midi_note_to_pads,
            root_note,
            root_colour,
            scale_colour,
            other_colour,
        }
    }
}


/// The SysEx message that sets LPX pad `pad` to palette colour `colour`.
pub open spec fn colour_message(pad: u8, colour: u8) -> Seq<u8> {
    seq![240u8, 0u8, 32u8, 41u8, 2u8, 12u8, 3u8, 0u8, pad, colour, 247u8]
}

/// What the layout sends for one three byte MIDI message from the LPX:
/// the messages for the synthesiser and those for the LPX, in order.
/// A note message from a note pad is sent on as its note and lights every
/// pad recorded for that note (blue, 50, while pressed; its resting colour
/// when released); a note message from another pad is dropped; any other
/// message is echoed back to the LPX.
pub open spec fn response_spec(v: AdapterView, m0: u8, pad: u8, vel: u8) -> (
    Seq<Seq<u8>>,
    Seq<Seq<u8>>,
) {
    if m0 == 144 {
        if 0 < pad % 10 && pad % 10 < 9 {
            let note = v.midi_map[pad as int];
            let colour = if vel == 0 {
                pad_colour_spec(v, pad as int).unwrap()
            } else {
                50u8
            };
            let e = v.note_to_pads[note as int];
            let first = match e.0 {
                Some(p) => seq![colour_message(p, colour)],
                None => Seq::empty(),
            };
            let second = match e.1 {
                Some(p) => seq![colour_message(p, colour)],
                None => Seq::empty(),
            };
            (seq![seq![144u8, note, vel]], first + second)
        } else {
            (Seq::empty(), Seq::empty())
        }
    } else {
        (Seq::empty(), seq![seq![m0, pad, vel]])
    }
}

/// The note pad at position `k` (0..64) counting rows from the bottom.
pub open spec fn kth_note_pad(k: int) -> int {
    11 + 10 * (k / 8) + k % 8
}

/// The messages that give every note pad its resting colour, bottom row
/// first.
pub open spec fn initial_colours_spec(v: AdapterView) -> Seq<Seq<u8>> {
    Seq::new(
        64,
        |k: int|
            colour_message(
                kth_note_pad(k) as u8,
                pad_colour_spec(v, kth_note_pad(k)).unwrap(),
            ),
    )
}

/// What the layout sends for one incoming message.
pub struct LpxResponse {
    pub to_synth: Vec<Vec<u8>>,
    pub to_lpx: Vec<Vec<u8>>,
}

/// The byte sequences of a list of messages.
pub open spec fn messages_view(m: Seq<Vec<u8>>) -> Seq<Seq<u8>> {
    m.map_values(|x: Vec<u8>| x@)
}

pub(crate) fn three_bytes(a: u8, b: u8, c: u8) -> (r: Vec<u8>)
    ensures
        r@ == seq![a, b, c],
{
    let mut r: Vec<u8> = Vec::new();
    r.push(a);
    r.push(b);
    r.push(c);
    assert(r@ =~= seq![a, b, c]);
    r
}

fn colour_msg(pad: u8, colour: u8) -> (r: Vec<u8>)
    ensures
        r@ == colour_message(pad, colour),
{
    let mut r: Vec<u8> = Vec::new();
    r.push(240);
    r.push(0);
    r.push(32);
    r.push(41);
    r.push(2);
    r.push(12);
    r.push(3);
    r.push(0);
    r.push(pad);
    r.push(colour);
    r.push(247);
    assert(r@ =~= colour_message(pad, colour));
    r
}

impl Adapter {
    /// The MIDI note pad `inp` plays (0 for a pad that plays none).
    pub fn adapt(&self, inp: u8) -> (r: u8)
        requires
            inp < 99,
        ensures
            r == self@.midi_map[inp as int],
    {
        proof {
            use_type_invariant(self);
        }
        self.midi_map[inp as usize]
    }

    fn scale_contains(&self, degree: u8) -> (r: bool)
        ensures
            r == self@.scale.contains(degree),
    {
        let mut i: usize = 0;
        while i < self.scale.len()
            invariant
                i <= self.scale@.len(),
                forall|j: int| 0 <= j < i ==> self.scale@[j] != degree,
            decreases self.scale.len() - i,
        {
            if self.scale[i] == degree {
                return true;
            }
            i = i + 1;
        }
        false
    }

    /// The resting colour of pad `pad_in`, or `None` when it plays no note.
    pub fn pad_colour(&self, pad_in: u8) -> (r: Option<u8>)
        requires
            pad_in < 99,
        ensures
            r == pad_colour_spec(self@, pad_in as int),
    {
        if pad_in % 10 > 0 && pad_in % 10 < 9 {
            let pad_out = self.adapt(pad_in);
            let root = self.root_note;
            let note: u8 = if pad_out >= root {
                (pad_out - root) % 12 + 1
            } else {
                let diff_12: u8 = (root - pad_out) % 12;
                12 - (if diff_12 == 0 {
                    12
                } else {
                    diff_12
                }) + 1
            };
            assert(note as int == scale_degree(pad_out as int, root as int));
            let colour = if note == 1 {
                self.root_colour
            } else if self.scale_contains(note) {
                self.scale_colour
            } else {
                self.other_colour
            };
            Some(colour)
        } else {
            None
        }
    }

    /// What to send for the three byte MIDI message `message` from the LPX.
    pub fn handle_message(&self, message: &[u8]) -> (r: LpxResponse)
        requires
            message@.len() >= 3,
            message@[0] == 144 && 0 < message@[1] % 10 < 9 ==> message@[1] < 99,
        ensures
            (messages_view(r.to_synth@), messages_view(r.to_lpx@)) == response_spec(
                self@,
                message@[0],
                message@[1],
                message@[2],
            ),
    {
        proof {
            use_type_invariant(self);
        }
        let m0 = message[0];
        let pad_in = message[1];
        let velocity = message[2];
        let mut to_synth: Vec<Vec<u8>> = Vec::new();
        let mut to_lpx: Vec<Vec<u8>> = Vec::new();
        if m0 == 144 {
            if pad_in % 10 > 0 && pad_in % 10 < 9 {
                let midi_note_out = self.adapt(pad_in);
                to_synth.push(three_bytes(144u8, midi_note_out, velocity));
                let pad_colour: u8 = if velocity == 0 {
                    match self.pad_colour(pad_in) {
                        Some(c) => c,
                        None => 0,
                    }
                } else {
                    50
                };
                assert(midi_note_out < 128);
                let pads = self.midi_note_to_pads[midi_note_out as usize];
                if let Some(p) = pads.0 {
                    to_lpx.push(colour_msg(p, pad_colour));
                }
                if let Some(p) = pads.1 {
                    to_lpx.push(colour_msg(p, pad_colour));
                }
            }
        } else {
            to_lpx.push(three_bytes(m0, pad_in, velocity));
        }
        let ghost spec_r = response_spec(self@, m0, pad_in, velocity);
        assert(messages_view(to_synth@) =~= spec_r.0);
        assert(messages_view(to_lpx@) =~= spec_r.1);
        LpxResponse { to_synth, to_lpx }
    }

    /// The messages that give every note pad its resting colour.
    pub fn initial_colour_messages(&self) -> (r: Vec<Vec<u8>>)
        ensures
            messages_view(r@) == initial_colours_spec(self@),
    {
        let mut r: Vec<Vec<u8>> = Vec::new();
        let mut k: u8 = 0;
        while k < 64
            invariant
                k <= 64,
                r@.len() == k,
                forall|j: int|
                    0 <= j < k ==> #[trigger] messages_view(r@)[j] == initial_colours_spec(self@)[j],
            decreases 64 - k,
        {
            let i: u8 = 11 + 10 * (k / 8) + k % 8;
            assert(i as int == kth_note_pad(k as int));
            let colour = match self.pad_colour(i) {
                Some(c) => c,
                None => 0,
            };
            let ghost old_r = r@;
            r.push(colour_msg(i, colour));
            assert forall|j: int| 0 <= j < k + 1 implies #[trigger] messages_view(r@)[j]
                == initial_colours_spec(self@)[j] by {
                if j < k {
                    assert(messages_view(r@)[j] == old_r[j]@);
                    assert(messages_view(old_r)[j] == old_r[j]@);
                }
            }
            k = k + 1;
        }
        assert(messages_view(r@) =~= initial_colours_spec(self@));
        r
    }
}

/// Two note pads play the same note only when the higher one sits one row
/// up and five columns left of the lower one.
proof fn lemma_same_note(i: int, j: int, root: int)
    requires
        is_note_pad(i),
        is_note_pad(j),
        i < j,
        pad_note(i, root) == pad_note(j, root),
    ensures
        j == i + 5,
        i % 10 >= 6,
        j % 10 <= 3,
{
}

/// Pressing a note pad lights exactly the pads that play its note: the
/// table entry for that note names a pad exactly when it is a note pad
/// playing the same note.
pub proof fn lemma_entry_names_every_pad_of_the_note(v: AdapterView, i: int, q: u8)
    requires
        layout_ok(v),
        is_note_pad(i),
    ensures
        ({
            let e = v.note_to_pads[pad_note(i, v.root_note as int)];
            (e.0 == Some(q) || e.1 == Some(q)) <==> (is_note_pad(q as int) && pad_note(
                q as int,
                v.root_note as int,
            ) == pad_note(i, v.root_note as int))
        }),
{
    let root = v.root_note as int;
    let n = pad_note(i, root);
    assert(0 <= n < 128);
    let e = v.note_to_pads[n];
    assert(entry_ok(e, n, root, 89));
    let p = e.0.unwrap() as int;
    if p < 80 && p % 10 > 5 {
        assert(is_note_pad(p + 5) && pad_note(p + 5, root) == n);
    }
    if is_note_pad(q as int) && pad_note(q as int, root) == n {
        if (q as int) < p {
            lemma_same_note(q as int, p, root);
        } else if (q as int) > p {
            assert(false);
        }
    }
    if e.1 == Some(q) {
        if p % 10 < 4 {
            assert(p > 20);
        }
    }
}

/// The pads a note table entry names.
pub open spec fn entry_pads(e: (Option<u8>, Option<u8>)) -> Set<int> {
    Set::new(
        |p: int|
            (e.0 matches Some(x) && x as int == p) || (e.1 matches Some(x) && x as int == p),
    )
}

/// The note pads that play note `n` in the layout rooted at `root`.
pub open spec fn pads_playing(n: int, root: int) -> Set<int> {
    Set::new(|j: int| is_note_pad(j) && pad_note(j, root) == n)
}

/// Whether note pad `p` shares its note with another pad: the three left
/// hand columns above the bottom row (with the pad one row down and five
/// columns right) and the three right hand columns below the top row
/// (with the pad one row up and five columns left).
pub open spec fn has_twin(p: int) -> bool {
    (p % 10 <= 3 && p / 10 >= 2) || (p % 10 >= 6 && p / 10 <= 7)
}

/// The pads lit for a note played on pad `i` are exactly the pads that
/// play that note: two for a pad in the three outer columns that has a
/// neighbouring row on the inner side, one otherwise.
pub proof fn lemma_pads_per_note(v: AdapterView, i: int)
    requires
        layout_ok(v),
        is_note_pad(i),
    ensures
        ({
            let n = v.midi_map[i] as int;
            let e = v.note_to_pads[n];
            &&& e.0 is Some
            &&& entry_pads(e) == pads_playing(n, v.root_note as int)
            &&& entry_pads(e).len() == if has_twin(i) { 2nat } else { 1nat }
        }),
{
    let root = v.root_note as int;
    let n = pad_note(i, root);
    assert(v.midi_map[i] as int == n);
    assert(0 <= n < 128);
    let e = v.note_to_pads[n];
    assert(entry_ok(e, n, root, 89));
    let expected = if i % 10 <= 3 && i / 10 >= 2 {
        set![i, i - 5]
    } else if i % 10 >= 6 && i / 10 <= 7 {
        set![i, i + 5]
    } else {
        set![i]
    };
    assert forall|j: int| #[trigger] pads_playing(n, root).contains(j) <==> expected.contains(j) by {
        if is_note_pad(j) && pad_note(j, root) == n {
            if j < i {
                lemma_same_note(j, i, root);
            } else if j > i {
                lemma_same_note(i, j, root);
            }
        }
        if expected.contains(j) {
            assert(is_note_pad(j) && pad_note(j, root) == n);
        }
    }
    assert(pads_playing(n, root) =~= expected);
    assert forall|j: int| #[trigger] entry_pads(e).contains(j) <==> pads_playing(n, root).contains(j) by {
        if entry_pads(e).contains(j) {
            if e.0 is Some && e.0->0 as int == j {
                lemma_entry_names_every_pad_of_the_note(v, i, e.0->0);
            } else {
                lemma_entry_names_every_pad_of_the_note(v, i, e.1->0);
            }
        }
        if pads_playing(n, root).contains(j) {
            lemma_entry_names_every_pad_of_the_note(v, i, j as u8);
        }
    }
    assert(entry_pads(e) =~= pads_playing(n, root));
    if i % 10 <= 3 && i / 10 >= 2 {
        assert(set![i, i - 5].len() == 2);
    } else if i % 10 >= 6 && i / 10 <= 7 {
        assert(set![i, i + 5].len() == 2);
    } else {
        assert(set![i].len() == 1);
    }
}

/// Whether `p` is a pad of the 8x8 grid: row and column digits 1 to 8.
pub open spec fn grid_pad(p: int) -> bool {
    0 <= p && 1 <= p / 10 <= 8 && 1 <= p % 10 <= 8
}

/// The start-up colour messages address exactly the 64 note pads of the
/// grid (row and column digits 1 to 8), each once, each with the resting
/// colour of that pad.
pub proof fn lemma_initial_colours_cover_grid(v: AdapterView)
    requires
        layout_ok(v),
    ensures
        ({
            let m = initial_colours_spec(v);
            &&& m.len() == 64
            &&& forall|k: int| 0 <= k < 64 ==> {
                let p = (#[trigger] m[k])[8] as int;
                &&& 1 <= p / 10 <= 8
                &&& 1 <= p % 10 <= 8
                &&& pad_colour_spec(v, p) is Some
                &&& m[k] == seq![240u8, 0u8, 32u8, 41u8, 2u8, 12u8, 3u8, 0u8, p as u8,
                    pad_colour_spec(v, p)->0, 247u8]
            }
            &&& forall|j: int, k: int| 0 <= j < k < 64 ==> (#[trigger] m[j])[8] != (#[trigger] m[k])[8]
            &&& forall|p: int| #[trigger] grid_pad(p) ==> exists|k: int|
                0 <= k < 64 && (#[trigger] m[k])[8] as int == p
        }),
{
    let m = initial_colours_spec(v);
    assert forall|k: int| 0 <= k < 64 implies {
        let p = (#[trigger] m[k])[8] as int;
        &&& 1 <= p / 10 <= 8
        &&& 1 <= p % 10 <= 8
        &&& pad_colour_spec(v, p) is Some
        &&& m[k] == seq![240u8, 0u8, 32u8, 41u8, 2u8, 12u8, 3u8, 0u8, p as u8,
            pad_colour_spec(v, p)->0, 247u8]
    } by {
        let q = kth_note_pad(k);
        assert(q / 10 == k / 8 + 1 && q % 10 == k % 8 + 1 && 11 <= q <= 88) by (nonlinear_arith)
            requires
                0 <= k < 64,
                q == 11 + 10 * (k / 8) + k % 8,
        ;
        assert(m[k][8] as int == q);
    }
    assert forall|j: int, k: int| 0 <= j < k < 64 implies (#[trigger] m[j])[8] != (#[trigger] m[k])[8] by {
        let qj = kth_note_pad(j);
        let qk = kth_note_pad(k);
        assert(qj != qk) by (nonlinear_arith)
            requires
                0 <= j < k < 64,
                qj == 11 + 10 * (j / 8) + j % 8,
                qk == 11 + 10 * (k / 8) + k % 8,
        ;
        assert(11 <= qj <= 88 && 11 <= qk <= 88) by (nonlinear_arith)
            requires
                0 <= j < 64,
                0 <= k < 64,
                qj == 11 + 10 * (j / 8) + j % 8,
                qk == 11 + 10 * (k / 8) + k % 8,
        ;
        assert(m[j][8] as int == qj && m[k][8] as int == qk);
    }
    assert forall|p: int| #[trigger] grid_pad(p) implies exists|k: int|
        0 <= k < 64 && (#[trigger] m[k])[8] as int == p by {
        let k = 8 * (p / 10 - 1) + p % 10 - 1;
        assert(0 <= k < 64 && kth_note_pad(k) == p) by (nonlinear_arith)
            requires
                0 <= p,
                1 <= p / 10 <= 8,
                1 <= p % 10 <= 8,
                k == 8 * (p / 10 - 1) + p % 10 - 1,
        ;
        assert(m[k][8] as int == p);
    }
}

/// Playing note pad `pad` with velocity `vel` sends its note, with that
/// velocity, to the synthesiser and lights each pad that plays the note,
/// once: blue (50) while pressed (any velocity above zero), the pad's
/// resting colour on release (velocity zero).
pub proof fn lemma_press_lights_pads_of_note(v: AdapterView, pad: u8, vel: u8)
    requires
        layout_ok(v),
        1 <= pad / 10 <= 8,
        1 <= pad % 10 <= 8,
    ensures
        ({
            let (synth, lpx) = response_spec(v, 144, pad, vel);
            let note = pad_note(pad as int, v.root_note as int);
            &&& synth == seq![seq![144u8, note as u8, vel]]
            &&& 1 <= lpx.len() <= 2
            &&& forall|i: int| 0 <= i < lpx.len() ==> #[trigger] lpx[i] == seq![240u8, 0u8, 32u8,
                41u8, 2u8, 12u8, 3u8, 0u8, lpx[i][8], lpx[i][9], 247u8]
            &&& forall|i: int| 0 <= i < lpx.len() && vel > 0 ==> (#[trigger] lpx[i])[9] == 50u8
            &&& forall|i: int| 0 <= i < lpx.len() && vel == 0 ==> (#[trigger] lpx[i])[9]
                == pad_colour_spec(v, pad as int)->0
            &&& Set::new(|p: int| exists|i: int| 0 <= i < lpx.len() && (#[trigger] lpx[i])[8] as int == p)
                == pads_playing(note, v.root_note as int)
            &&& lpx.len() == pads_playing(note, v.root_note as int).len()
        }),
{
    let i = pad as int;
    let root = v.root_note as int;
    assert(is_note_pad(i));
    lemma_pads_per_note(v, i);
    let n = pad_note(i, root);
    assert(v.midi_map[i] as int == n);
    let e = v.note_to_pads[n];
    assert(entry_ok(e, n, root, 89));
    let (synth, lpx) = response_spec(v, 144, pad, vel);
    let p0 = e.0->0;
    let addressed = Set::new(|p: int| exists|k: int| 0 <= k < lpx.len() && (#[trigger] lpx[k])[8] as int == p);
    assert forall|p: int| #[trigger] addressed.contains(p) <==> entry_pads(e).contains(p) by {
        if entry_pads(e).contains(p) {
            if e.0 is Some && e.0->0 as int == p {
                assert(lpx[0][8] as int == p);
            } else {
                assert(lpx[1][8] as int == p);
            }
        }
    }
    assert(addressed =~= entry_pads(e));
    if e.1 is Some {
        assert(e.1->0 != p0);
        assert(entry_pads(e) =~= set![p0 as int, e.1->0 as int]);
    } else {
        assert(entry_pads(e) =~= set![p0 as int]);
    }
}

/// Rows of the layout are five semitones apart.
pub proof fn lemma_rows_five_apart(v: AdapterView, p: int)
    requires
        layout_ok(v),
        is_note_pad(p),
        is_note_pad(p + 10),
    ensures
        v.midi_map[p + 10] == v.midi_map[p] + 5,
{
}

/// Neighbouring pads in a row are a semitone apart.
pub proof fn lemma_columns_one_apart(v: AdapterView, p: int)
    requires
        layout_ok(v),
        is_note_pad(p),
        is_note_pad(p + 1),
    ensures
        v.midi_map[p + 1] == v.midi_map[p] + 1,
{
}

/// The centre pad 45 (row 4, column 5) plays the root note.
pub proof fn lemma_root_pad(v: AdapterView)
    requires
        layout_ok(v),
    ensures
        v.midi_map[45] == v.root_note,
{
}


/// The three device names a configuration file sets: the LPX as a MIDI
/// source, the LPX as a sink for colour messages, and the synthesiser.
pub struct ConfigNames {
    pub midi_source_lpx: Seq<char>,
    pub midi_sink_lpx: Seq<char>,
    pub midi_sink_synth: Seq<char>,
}

/// Read one configuration line into `names`; a line that sets none of the
/// three names is an error carrying the line.
pub open spec fn config_line(names: ConfigNames, l: Seq<char>) -> Result<ConfigNames, Seq<char>> {
    if let Some(rest) = strip_prefix_spec(l, "midi_source_lpx:"@) {
        Ok(ConfigNames { midi_source_lpx: rest, ..names })
    } else if let Some(rest) = strip_prefix_spec(l, "midi_sink_lpx:"@) {
        Ok(ConfigNames { midi_sink_lpx: rest, ..names })
    } else if let Some(rest) = strip_prefix_spec(l, "midi_sink_synth:"@) {
        Ok(ConfigNames { midi_sink_synth: rest, ..names })
    } else {
        Err(l)
    }
}

/// Read configuration lines in order, starting from empty names; the first
/// line that sets no name stops the reading.
pub open spec fn config_lines(ls: Seq<Seq<char>>) -> Result<ConfigNames, Seq<char>>
    decreases ls.len(),
{
    if ls.len() == 0 {
        Ok(ConfigNames { midi_source_lpx: Seq::empty(), midi_sink_lpx: Seq::empty(), midi_sink_synth: Seq::empty() })
    } else {
        match config_lines(ls.drop_last()) {
            Ok(names) => config_line(names, ls.last()),
            Err(l) => Err(l),
        }
    }
}

/// The names of the MIDI devices `lpx_manager` connects, and of its own
/// ends of each connection.
pub struct DeviceNames {
    pub midi_source_lpx: String,
    pub midi_source_lpx_120: String,
    pub midi_sink_lpx: String,
    pub midi_sink_lpx_120: String,
    pub midi_sink_synth: String,
    pub midi_sink_synth_120: String,
}

impl DeviceNames {
    /// Read the device names from the text of a configuration file: each
    /// line is `midi_source_lpx:<name>`, `midi_sink_lpx:<name>` or
    /// `midi_sink_synth:<name>`; a later line for a name wins.  The first
    /// line of any other form (an empty line too) is returned as the
    /// error: the configuration is refused, and `lpx_manager` stops on it
    /// with "<line> misunderstood" rather than run with such a file.
    pub fn parse(content: &str) -> (r: Result<DeviceNames, String>)
        ensures
            match (r, config_lines(text_lines(content@))) {
                (Ok(d), Ok(names)) => {
                    &&& d.midi_source_lpx@ == names.midi_source_lpx
                    &&& d.midi_sink_lpx@ == names.midi_sink_lpx
                    &&& d.midi_sink_synth@ == names.midi_sink_synth
                    &&& d.midi_source_lpx_120@ == "120-Proof-MIDI-In-LPX"@
                    &&& d.midi_sink_lpx_120@ == "120-Proof-MIDI-Out-LPX"@
                    &&& d.midi_sink_synth_120@ == "120-Proof-MIDI-Out-PD"@
                },
                (Err(e), Err(l)) => e@ == l,
                _ => false,
            },
    {
        let ls = lines(content);
        let ghost sl = text_lines(content@);
        let mut midi_source_lpx: String = String::new();
        let mut midi_sink_lpx: String = String::new();
        let mut midi_sink_synth: String = String::new();
        assert(sl.take(0) =~= Seq::<Seq<char>>::empty());
        let mut i: usize = 0;
        while i < ls.len()
            invariant
                i <= ls@.len(),
                ls.deep_view() == sl,
                sl == text_lines(content@),
                config_lines(sl.take(i as int)) == Ok::<ConfigNames, Seq<char>>(ConfigNames {
                    midi_source_lpx: midi_source_lpx@,
                    midi_sink_lpx: midi_sink_lpx@,
                    midi_sink_synth: midi_sink_synth@,
                }),
            decreases ls.len() - i,
        {
            let l = ls[i].as_str();
            assert(l@ == sl[i as int]);
            assert(sl.take(i + 1).drop_last() =~= sl.take(i as int));
            if let Some(rest) = strip_prefix(l, "midi_source_lpx:") {
                midi_source_lpx = rest;
            } else if let Some(rest) = strip_prefix(l, "midi_sink_lpx:") {
                midi_sink_lpx = rest;
            } else if let Some(rest) = strip_prefix(l, "midi_sink_synth:") {
                midi_sink_synth = rest;
            } else {
                let e = ls[i].clone();
                assert(config_lines(sl.take(i + 1)) == Err::<ConfigNames, Seq<char>>(sl[i as int]));
                proof {
                    lemma_config_error_stays(sl, i as int + 1);
                    assert(sl.take(sl.len() as int) =~= sl);
                }
                return Err(e);
            }
            i = i + 1;
        }
        assert(sl.take(sl.len() as int) =~= sl);
        Ok(DeviceNames {
            midi_source_lpx,
            midi_source_lpx_120: "120-Proof-MIDI-In-LPX".to_owned(),
            midi_sink_lpx,
            midi_sink_lpx_120: "120-Proof-MIDI-Out-LPX".to_owned(),
            midi_sink_synth,
            midi_sink_synth_120: "120-Proof-MIDI-Out-PD".to_owned(),
        })
    }
}

/// Once a prefix of the lines is in error, every longer prefix has the same
/// error.
proof fn lemma_config_error_stays(ls: Seq<Seq<char>>, k: int)
    requires
        0 <= k <= ls.len(),
        config_lines(ls.take(k)) is Err,
    ensures
        config_lines(ls.take(ls.len() as int)) == config_lines(ls.take(k)),
    decreases ls.len() - k,
{
    if k < ls.len() {
        assert(ls.take(k + 1).drop_last() =~= ls.take(k));
        lemma_config_error_stays(ls, k + 1);
    }
}

} // verus!
