//! Whole-fractal presets (base shape, replicas and depth switched together), their menu
//! labels and the lookup of a preset from a boot token such as the value of
//! `FRACTALIUM_BOOT_PRESET`.
//!
//! A token is matched on its key: the ASCII letters and digits of the token, lower-cased,
//! everything else dropped. `"pythagoras"` and `"heighway"` / `"dragon"` are accepted as
//! short names; otherwise the token must have the key of a preset's label.
use crate::text::{ascii_lower, lower_ascii_char};
use vstd::prelude::*;

verus! {

/// The whole-fractal presets, in menu order.
#[derive(Clone, Copy, Debug, PartialEq, Eq, Hash, Structural)]
pub enum FractalPreset {
    SierpinskiTriangle,
    KochCurve,
    Vicsek,
    HeighwayDragon,
    LevyCCurve,
    SierpinskiCarpet,
    PythagorasTree,
    SierpinskiHexagon,
    SierpinskiStar,
    BinaryFractalTree,
    Terdragon,
}

/// The menu label of each preset.
pub open spec fn preset_label(p: FractalPreset) -> Seq<char> {
    match p {
        FractalPreset::SierpinskiTriangle => "Sierpiński triangle"@,
        FractalPreset::KochCurve => "Koch curve"@,
        FractalPreset::Vicsek => "Vicsek (fractal cross)"@,
        FractalPreset::HeighwayDragon => "Dragon curve"@,
        FractalPreset::LevyCCurve => "Lévy C curve"@,
        FractalPreset::SierpinskiCarpet => "Sierpiński carpet"@,
        FractalPreset::PythagorasTree => "Pythagoras tree"@,
        FractalPreset::SierpinskiHexagon => "Sierpiński hexagon"@,
        FractalPreset::SierpinskiStar => "Sierpiński pentagram"@,
        FractalPreset::BinaryFractalTree => "Binary fractal tree"@,
        FractalPreset::Terdragon => "Terdragon curve"@,
    }
}

/// The presets in menu order, as a sequence.
pub open spec fn all_presets() -> Seq<FractalPreset> {
    seq![
        FractalPreset::SierpinskiTriangle,
        FractalPreset::KochCurve,
        FractalPreset::Vicsek,
        FractalPreset::HeighwayDragon,
        FractalPreset::LevyCCurve,
        FractalPreset::SierpinskiCarpet,
        FractalPreset::PythagorasTree,
        FractalPreset::SierpinskiHexagon,
        FractalPreset::SierpinskiStar,
        FractalPreset::BinaryFractalTree,
        FractalPreset::Terdragon,
    ]
}

/// An ASCII letter or digit.
pub open spec fn is_key_char(c: char) -> bool {
    ('0' <= c && c <= '9') || ('a' <= c && c <= 'z') || ('A' <= c && c <= 'Z')
}

/// The lookup key of a text: its ASCII letters and digits, lower-cased, in order.
pub open spec fn token_key(s: Seq<char>) -> Seq<char>
    decreases s.len(),
{
    if s.len() == 0 {
        Seq::empty()
    } else {
        let rest = token_key(s.drop_last());
        if is_key_char(s.last()) {
            rest.push(ascii_lower(s.last()))
        } else {
            rest
        }
    }
}

/// The first preset of `presets` whose label has the key `key`, if any.
pub open spec fn first_with_key(presets: Seq<FractalPreset>, key: Seq<char>) -> Option<FractalPreset>
    decreases presets.len(),
{
    if presets.len() == 0 {
        None
    } else if token_key(preset_label(presets[0])) == key {
        Some(presets[0])
    } else {
        first_with_key(presets.drop_first(), key)
    }
}

/// The preset a boot token names: the short names first, then the preset whose label
/// has the token's key.
pub open spec fn spec_from_boot_token(raw: Seq<char>) -> Option<FractalPreset> {
    let key = token_key(raw);
    if key == "pythagoras"@ || key == "pythagorastree"@ {
        Some(FractalPreset::PythagorasTree)
    } else if key == "heighway"@ || key == "heighwaydragon"@ || key == "dragon"@ {
        Some(FractalPreset::HeighwayDragon)
    } else {
        first_with_key(all_presets(), key)
    }
}

/// The lookup key of `s` (see [`token_key`]).
fn key_of(s: &str) -> (res: Vec<char>)
    ensures
        res@ == token_key(s@),
{
    let mut out: Vec<char> = Vec::new();
    for c in it: s.chars()
        invariant
            it.seq() == s@,
            out@ == token_key(s@.take(it.index() as int)),
    {
        proof {
            let i = it.index() as int;
            assert(s@.take(i + 1).drop_last() =~= s@.take(i));
            assert(s@.take(i + 1).last() == s@[i]);
        }
        if ('0' <= c && c <= '9') || ('a' <= c && c <= 'z') || ('A' <= c && c <= 'Z') {
            out.push(lower_ascii_char(c));
        }
    }
    proof {
        assert(s@.take(s@.len() as int) =~= s@);
    }
    out
}

/// Whether `key` spells exactly the text `lit`.
fn key_is(key: &Vec<char>, lit: &str) -> (res: bool)
    ensures
        res == (key@ == lit@),
{
    let n = lit.unicode_len();
    if key.len() != n {
        return false;
    }
    let mut i: usize = 0;
    while i < n
        invariant
            n == lit@.len(),
            key@.len() == n,
            i <= n,
            forall|j: int| 0 <= j < i ==> key@[j] == lit@[j],
        decreases n - i,
    {
        if key[i] != lit.get_char(i) {
            return false;
        }
        i = i + 1;
    }
    proof {
        assert(key@ =~= lit@);
    }
    true
}

/// Whether two keys are equal.
fn keys_equal(a: &Vec<char>, b: &Vec<char>) -> (res: bool)
    ensures
        res == (a@ == b@),
{
    if a.len() != b.len() {
        return false;
    }
    let mut i: usize = 0;
    while i < a.len()
        invariant
            a@.len() == b@.len(),
            i <= a@.len(),
            forall|j: int| 0 <= j < i ==> a@[j] == b@[j],
        decreases a@.len() - i,
    {
        if a[i] != b[i] {
            return false;
        }
        i = i + 1;
    }
    proof {
        assert(a@ =~= b@);
    }
    true
}

impl FractalPreset {
    /// Every preset, in menu order.
    pub const ALL: [FractalPreset; 11] = [
        FractalPreset::SierpinskiTriangle,
        FractalPreset::KochCurve,
        FractalPreset::Vicsek,
        FractalPreset::HeighwayDragon,
        FractalPreset::LevyCCurve,
        FractalPreset::SierpinskiCarpet,
        FractalPreset::PythagorasTree,
        FractalPreset::SierpinskiHexagon,
        FractalPreset::SierpinskiStar,
        FractalPreset::BinaryFractalTree,
        FractalPreset::Terdragon,
    ];

    /// The label shown in the preset menu.
    pub fn label(self) -> (res: &'static str)
        ensures
            res@ == preset_label(self),
    {
        match self {
            FractalPreset::SierpinskiTriangle => "Sierpiński triangle",
            FractalPreset::KochCurve => "Koch curve",
            FractalPreset::Vicsek => "Vicsek (fractal cross)",
            FractalPreset::HeighwayDragon => "Dragon curve",
            FractalPreset::LevyCCurve => "Lévy C curve",
            FractalPreset::SierpinskiCarpet => "Sierpiński carpet",
            FractalPreset::PythagorasTree => "Pythagoras tree",
            FractalPreset::SierpinskiHexagon => "Sierpiński hexagon",
            FractalPreset::SierpinskiStar => "Sierpiński pentagram",
            FractalPreset::BinaryFractalTree => "Binary fractal tree",
            FractalPreset::Terdragon => "Terdragon curve",
        }
    }

    /// The preset a boot token (for screenshots and checks, the value of
    /// `FRACTALIUM_BOOT_PRESET`) names, or `None`.
    pub fn from_boot_token(raw: &str) -> (res: Option<Self>)
        ensures
            res == spec_from_boot_token(raw@),
    {
        let key = key_of(raw);
        if key_is(&key, "pythagoras") || key_is(&key, "pythagorastree") {
            return Some(FractalPreset::PythagorasTree);
        }
        if key_is(&key, "heighway") || key_is(&key, "heighwaydragon") || key_is(&key, "dragon") {
            return Some(FractalPreset::HeighwayDragon);
        }
        let all = FractalPreset::ALL;
        let mut i: usize = 0;
        proof {
            assert(all@ =~= all_presets());
            assert(all_presets().skip(0) =~= all_presets());
        }
        while i < 11
            invariant
                all@ == all_presets(),
                i <= 11,
                key@ == token_key(raw@),
                spec_from_boot_token(raw@) == first_with_key(all_presets().skip(i as int), key@),
            decreases 11 - i,
        {
            let p = all[i];
            let label_key = key_of(p.label());
            proof {
                assert(all_presets().skip(i as int).drop_first() =~= all_presets().skip(i + 1));
                assert(all_presets().skip(i as int)[0] == p);
            }
            if keys_equal(&label_key, &key) {
                return Some(p);
            }
            i = i + 1;
        }
        None
    }
}


proof fn lemma_key_sierpinski_triangle()
    ensures
        token_key(preset_label(FractalPreset::SierpinskiTriangle)) == "sierpiskitriangle"@,
{
    reveal_strlit("Sierpiński triangle");
    reveal_strlit("sierpiskitriangle");
    reveal_with_fuel(token_key, 21);
    assert(token_key(preset_label(FractalPreset::SierpinskiTriangle)) =~= "sierpiskitriangle"@);
}

proof fn lemma_key_koch_curve()
    ensures
        token_key(preset_label(FractalPreset::KochCurve)) == "kochcurve"@,
{
    reveal_strlit("Koch curve");
    reveal_strlit("kochcurve");
    reveal_with_fuel(token_key, 12);
    assert(token_key(preset_label(FractalPreset::KochCurve)) =~= "kochcurve"@);
}

proof fn lemma_key_vicsek()
    ensures
        token_key(preset_label(FractalPreset::Vicsek)) == "vicsekfractalcross"@,
{
    reveal_strlit("Vicsek (fractal cross)");
    reveal_strlit("vicsekfractalcross");
    reveal_with_fuel(token_key, 24);
    assert(token_key(preset_label(FractalPreset::Vicsek)) =~= "vicsekfractalcross"@);
}

proof fn lemma_key_heighway_dragon()
    ensures
        token_key(preset_label(FractalPreset::HeighwayDragon)) == "dragoncurve"@,
{
    reveal_strlit("Dragon curve");
    reveal_strlit("dragoncurve");
    reveal_with_fuel(token_key, 14);
    assert(token_key(preset_label(FractalPreset::HeighwayDragon)) =~= "dragoncurve"@);
}

proof fn lemma_key_levy_c_curve()
    ensures
        token_key(preset_label(FractalPreset::LevyCCurve)) == "lvyccurve"@,
{
    reveal_strlit("Lévy C curve");
    reveal_strlit("lvyccurve");
    reveal_with_fuel(token_key, 14);
    assert(token_key(preset_label(FractalPreset::LevyCCurve)) =~= "lvyccurve"@);
}

proof fn lemma_key_sierpinski_carpet()
    ensures
        token_key(preset_label(FractalPreset::SierpinskiCarpet)) == "sierpiskicarpet"@,
{
    reveal_strlit("Sierpiński carpet");
    reveal_strlit("sierpiskicarpet");
    reveal_with_fuel(token_key, 19);
    assert(token_key(preset_label(FractalPreset::SierpinskiCarpet)) =~= "sierpiskicarpet"@);
}

proof fn lemma_key_pythagoras_tree()
    ensures
        token_key(preset_label(FractalPreset::PythagorasTree)) == "pythagorastree"@,
{
    reveal_strlit("Pythagoras tree");
    reveal_strlit("pythagorastree");
    reveal_with_fuel(token_key, 17);
    assert(token_key(preset_label(FractalPreset::PythagorasTree)) =~= "pythagorastree"@);
}

proof fn lemma_key_sierpinski_hexagon()
    ensures
        token_key(preset_label(FractalPreset::SierpinskiHexagon)) == "sierpiskihexagon"@,
{
    reveal_strlit("Sierpiński hexagon");
    reveal_strlit("sierpiskihexagon");
    reveal_with_fuel(token_key, 20);
    assert(token_key(preset_label(FractalPreset::SierpinskiHexagon)) =~= "sierpiskihexagon"@);
}

proof fn lemma_key_sierpinski_star()
    ensures
        token_key(preset_label(FractalPreset::SierpinskiStar)) == "sierpiskipentagram"@,
{
    reveal_strlit("Sierpiński pentagram");
    reveal_strlit("sierpiskipentagram");
    reveal_with_fuel(token_key, 22);
    assert(token_key(preset_label(FractalPreset::SierpinskiStar)) =~= "sierpiskipentagram"@);
}

proof fn lemma_key_binary_fractal_tree()
    ensures
        token_key(preset_label(FractalPreset::BinaryFractalTree)) == "binaryfractaltree"@,
{
    reveal_strlit("Binary fractal tree");
    reveal_strlit("binaryfractaltree");
    reveal_with_fuel(token_key, 21);
    assert(token_key(preset_label(FractalPreset::BinaryFractalTree)) =~= "binaryfractaltree"@);
}

proof fn lemma_key_terdragon()
    ensures
        token_key(preset_label(FractalPreset::Terdragon)) == "terdragoncurve"@,
{
    reveal_strlit("Terdragon curve");
    reveal_strlit("terdragoncurve");
    reveal_with_fuel(token_key, 17);
    assert(token_key(preset_label(FractalPreset::Terdragon)) =~= "terdragoncurve"@);
}

/// The first preset of `ps` whose label has `key` is the one at index `k` when the
/// labels before it have other keys.
proof fn lemma_first_with_key_index(ps: Seq<FractalPreset>, key: Seq<char>, k: int)
    requires
        0 <= k < ps.len(),
        token_key(preset_label(ps[k])) == key,
        forall|j: int| 0 <= j < k ==> token_key(preset_label(#[trigger] ps[j])) != key,
    ensures
        first_with_key(ps, key) == Some(ps[k]),
    decreases k,
{
    if k > 0 {
        assert forall|j: int| 0 <= j < k - 1 implies token_key(preset_label(#[trigger] ps.drop_first()[j])) != key by {
            assert(ps.drop_first()[j] == ps[j + 1]);
        }
        lemma_first_with_key_index(ps.drop_first(), key, k - 1);
    }
}

/// Position of each preset in the menu order.
spec fn preset_index(p: FractalPreset) -> int {
    match p {
        FractalPreset::SierpinskiTriangle => 0,
        FractalPreset::KochCurve => 1,
        FractalPreset::Vicsek => 2,
        FractalPreset::HeighwayDragon => 3,
        FractalPreset::LevyCCurve => 4,
        FractalPreset::SierpinskiCarpet => 5,
        FractalPreset::PythagorasTree => 6,
        FractalPreset::SierpinskiHexagon => 7,
        FractalPreset::SierpinskiStar => 8,
        FractalPreset::BinaryFractalTree => 9,
        FractalPreset::Terdragon => 10,
    }
}

/// Length and first character of the key of each preset's label; no two presets share
/// both.
spec fn key_shape(p: FractalPreset) -> (nat, char) {
    match p {
        FractalPreset::SierpinskiTriangle => (17, 's'),
        FractalPreset::KochCurve => (9, 'k'),
        FractalPreset::Vicsek => (18, 'v'),
        FractalPreset::HeighwayDragon => (11, 'd'),
        FractalPreset::LevyCCurve => (9, 'l'),
        FractalPreset::SierpinskiCarpet => (15, 's'),
        FractalPreset::PythagorasTree => (14, 'p'),
        FractalPreset::SierpinskiHexagon => (16, 's'),
        FractalPreset::SierpinskiStar => (18, 's'),
        FractalPreset::BinaryFractalTree => (17, 'b'),
        FractalPreset::Terdragon => (14, 't'),
    }
}

/// The key of a preset's label has the length and first character of [`key_shape`].
proof fn lemma_key_has_shape(p: FractalPreset)
    ensures
        token_key(preset_label(p)).len() == key_shape(p).0,
        token_key(preset_label(p))[0] == key_shape(p).1,
{
    match p {
        FractalPreset::SierpinskiTriangle => {
            lemma_key_sierpinski_triangle();
            reveal_strlit("sierpiskitriangle");
        },
        FractalPreset::KochCurve => {
            lemma_key_koch_curve();
            reveal_strlit("kochcurve");
        },
        FractalPreset::Vicsek => {
            lemma_key_vicsek();
            reveal_strlit("vicsekfractalcross");
        },
        FractalPreset::HeighwayDragon => {
            lemma_key_heighway_dragon();
            reveal_strlit("dragoncurve");
        },
        FractalPreset::LevyCCurve => {
            lemma_key_levy_c_curve();
            reveal_strlit("lvyccurve");
        },
        FractalPreset::SierpinskiCarpet => {
            lemma_key_sierpinski_carpet();
            reveal_strlit("sierpiskicarpet");
        },
        FractalPreset::PythagorasTree => {
            lemma_key_pythagoras_tree();
            reveal_strlit("pythagorastree");
        },
        FractalPreset::SierpinskiHexagon => {
            lemma_key_sierpinski_hexagon();
            reveal_strlit("sierpiskihexagon");
        },
        FractalPreset::SierpinskiStar => {
            lemma_key_sierpinski_star();
            reveal_strlit("sierpiskipentagram");
        },
        FractalPreset::BinaryFractalTree => {
            lemma_key_binary_fractal_tree();
            reveal_strlit("binaryfractaltree");
        },
        FractalPreset::Terdragon => {
            lemma_key_terdragon();
            reveal_strlit("terdragoncurve");
        },
    }
}

/// Law: the label of every preset, given as a boot token, names that preset.
pub proof fn law_label_names_its_preset(p: FractalPreset)
    ensures
        spec_from_boot_token(preset_label(p)) == Some(p),
{
    let key = token_key(preset_label(p));
    let all = all_presets();
    let k = preset_index(p);
    lemma_key_has_shape(p);
    reveal_strlit("pythagoras");
    reveal_strlit("pythagorastree");
    reveal_strlit("heighway");
    reveal_strlit("heighwaydragon");
    reveal_strlit("dragon");
    assert(all[k] == p);
    if key == "pythagorastree"@ {
        assert(p == FractalPreset::PythagorasTree);
    } else {
        assert forall|j: int| 0 <= j < k implies token_key(preset_label(#[trigger] all[j])) != key by {
            lemma_key_has_shape(all[j]);
        }
        lemma_first_with_key_index(all, key, k);
    }
}

} // verus!
