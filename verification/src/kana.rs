//! The spellings of the kana: which keystrokes type which syllable.
//!
//! A syllable is one kana, or a kana of the i-row with a small ya, yu or yo
//! behind it. Hiragana and katakana are spelled alike. The Latin letters and
//! the long-vowel mark stand for themselves; any other character cannot be
//! typed and has no spelling.

use crate::roman_char::style_views;
use vstd::prelude::*;

verus! {

/// The list of the one spelling `a`.
fn one(a: &'static str) -> (v: Vec<&'static str>)
    ensures
        style_views(v@) == seq![a@],
{
    let mut v: Vec<&'static str> = Vec::new();
    v.push(a);
    assert(style_views(v@) =~= seq![a@]);
    v
}

/// The list of the spellings `a` and `b`.
fn two(a: &'static str, b: &'static str) -> (v: Vec<&'static str>)
    ensures
        style_views(v@) == seq![a@, b@],
{
    let mut v: Vec<&'static str> = Vec::new();
    v.push(a);
    v.push(b);
    assert(style_views(v@) =~= seq![a@, b@]);
    v
}

/// The list of the spellings `a`, `b` and `c`.
fn three(a: &'static str, b: &'static str, c: &'static str) -> (v: Vec<&'static str>)
    ensures
        style_views(v@) == seq![a@, b@, c@],
{
    let mut v: Vec<&'static str> = Vec::new();
    v.push(a);
    v.push(b);
    v.push(c);
    assert(style_views(v@) =~= seq![a@, b@, c@]);
    v
}

/// The list of no spelling.
fn none() -> (v: Vec<&'static str>)
    ensures
        style_views(v@) == Seq::<Seq<char>>::empty(),
{
    let v: Vec<&'static str> = Vec::new();
    assert(style_views(v@) =~= Seq::<Seq<char>>::empty());
    v
}

/// The spellings of the kana `c`, the preferred one first. A character that
/// is no kana has none.
pub open spec fn spec_kana(c: char) -> Seq<Seq<char>> {
    match c {
        'あ' | 'ア' => seq!["a"@],
        'い' | 'イ' => seq!["i"@],
        'う' | 'ウ' => seq!["u"@, "wu"@],
        'え' | 'エ' => seq!["e"@],
        'お' | 'オ' => seq!["o"@],
        'か' | 'カ' => seq!["ka"@],
        'き' | 'キ' => seq!["ki"@],
        'く' | 'ク' => seq!["ku"@],
        'け' | 'ケ' => seq!["ke"@],
        'こ' | 'コ' => seq!["ko"@],
        'が' | 'ガ' => seq!["ga"@],
        'ぎ' | 'ギ' => seq!["gi"@],
        'ぐ' | 'グ' => seq!["gu"@],
        'げ' | 'ゲ' => seq!["ge"@],
        'ご' | 'ゴ' => seq!["go"@],
        'さ' | 'サ' => seq!["sa"@],
        'し' | 'シ' => seq!["si"@, "shi"@, "ci"@],
        'す' | 'ス' => seq!["su"@],
        'せ' | 'セ' => seq!["se"@, "ce"@],
        'そ' | 'ソ' => seq!["so"@],
        'ざ' | 'ザ' => seq!["za"@],
        'じ' | 'ジ' => seq!["zi"@, "ji"@],
        'ず' | 'ズ' => seq!["zu"@],
        'ぜ' | 'ゼ' => seq!["ze"@],
        'ぞ' | 'ゾ' => seq!["zo"@],
        'た' | 'タ' => seq!["ta"@],
        'ち' | 'チ' => seq!["ti"@, "chi"@],
        'つ' | 'ツ' => seq!["tu"@, "tsu"@],
        'て' | 'テ' => seq!["te"@],
        'と' | 'ト' => seq!["to"@],
        'だ' | 'ダ' => seq!["da"@],
        'ぢ' | 'ヂ' => seq!["di"@],
        'づ' | 'ヅ' => seq!["du"@],
        'で' | 'デ' => seq!["de"@],
        'ど' | 'ド' => seq!["do"@],
        'な' | 'ナ' => seq!["na"@],
        'に' | 'ニ' => seq!["ni"@],
        'ぬ' | 'ヌ' => seq!["nu"@],
        'ね' | 'ネ' => seq!["ne"@],
        'の' | 'ノ' => seq!["no"@],
        'は' | 'ハ' => seq!["ha"@],
        'ひ' | 'ヒ' => seq!["hi"@],
        'ふ' | 'フ' => seq!["hu"@, "fu"@],
        'へ' | 'ヘ' => seq!["he"@],
        'ほ' | 'ホ' => seq!["ho"@],
        'ば' | 'バ' => seq!["ba"@],
        'び' | 'ビ' => seq!["bi"@],
        'ぶ' | 'ブ' => seq!["bu"@],
        'べ' | 'ベ' => seq!["be"@],
        'ぼ' | 'ボ' => seq!["bo"@],
        'ぱ' | 'パ' => seq!["pa"@],
        'ぴ' | 'ピ' => seq!["pi"@],
        'ぷ' | 'プ' => seq!["pu"@],
        'ぺ' | 'ペ' => seq!["pe"@],
        'ぽ' | 'ポ' => seq!["po"@],
        'ま' | 'マ' => seq!["ma"@],
        'み' | 'ミ' => seq!["mi"@],
        'む' | 'ム' => seq!["mu"@],
        'め' | 'メ' => seq!["me"@],
        'も' | 'モ' => seq!["mo"@],
        'や' | 'ヤ' => seq!["ya"@],
        'ゆ' | 'ユ' => seq!["yu"@],
        'よ' | 'ヨ' => seq!["yo"@],
        'ら' | 'ラ' => seq!["ra"@],
        'り' | 'リ' => seq!["ri"@],
        'る' | 'ル' => seq!["ru"@],
        'れ' | 'レ' => seq!["re"@],
        'ろ' | 'ロ' => seq!["ro"@],
        'わ' | 'ワ' => seq!["wa"@],
        'を' | 'ヲ' => seq!["wo"@],
        'ん' | 'ン' => seq!["nn"@, "xn"@],
        'ゔ' | 'ヴ' => seq!["vu"@],
        'ぁ' | 'ァ' => seq!["xa"@, "la"@],
        'ぃ' | 'ィ' => seq!["xi"@, "li"@],
        'ぅ' | 'ゥ' => seq!["xu"@, "lu"@],
        'ぇ' | 'ェ' => seq!["xe"@, "le"@],
        'ぉ' | 'ォ' => seq!["xo"@, "lo"@],
        'ゃ' | 'ャ' => seq!["xya"@, "lya"@],
        'ゅ' | 'ュ' => seq!["xyu"@, "lyu"@],
        'ょ' | 'ョ' => seq!["xyo"@, "lyo"@],
        'ゎ' | 'ヮ' => seq!["xwa"@, "lwa"@],
        'っ' | 'ッ' => seq!["ltu"@, "xtu"@, "ltsu"@],
        'ー' => seq!["-"@],
        _ => Seq::empty(),
    }
}

/// The spellings of the kana `c`, the preferred one first.
pub fn kana(c: char) -> (styles: Vec<&'static str>)
    ensures
        style_views(styles@) == spec_kana(c),
{
    match c {
        'あ' | 'ア' => one("a"),
        'い' | 'イ' => one("i"),
        'う' | 'ウ' => two("u", "wu"),
        'え' | 'エ' => one("e"),
        'お' | 'オ' => one("o"),
        'か' | 'カ' => one("ka"),
        'き' | 'キ' => one("ki"),
        'く' | 'ク' => one("ku"),
        'け' | 'ケ' => one("ke"),
        'こ' | 'コ' => one("ko"),
        'が' | 'ガ' => one("ga"),
        'ぎ' | 'ギ' => one("gi"),
        'ぐ' | 'グ' => one("gu"),
        'げ' | 'ゲ' => one("ge"),
        'ご' | 'ゴ' => one("go"),
        'さ' | 'サ' => one("sa"),
        'し' | 'シ' => three("si", "shi", "ci"),
        'す' | 'ス' => one("su"),
        'せ' | 'セ' => two("se", "ce"),
        'そ' | 'ソ' => one("so"),
        'ざ' | 'ザ' => one("za"),
        'じ' | 'ジ' => two("zi", "ji"),
        'ず' | 'ズ' => one("zu"),
        'ぜ' | 'ゼ' => one("ze"),
        'ぞ' | 'ゾ' => one("zo"),
        'た' | 'タ' => one("ta"),
        'ち' | 'チ' => two("ti", "chi"),
        'つ' | 'ツ' => two("tu", "tsu"),
        'て' | 'テ' => one("te"),
        'と' | 'ト' => one("to"),
        'だ' | 'ダ' => one("da"),
        'ぢ' | 'ヂ' => one("di"),
        'づ' | 'ヅ' => one("du"),
        'で' | 'デ' => one("de"),
        'ど' | 'ド' => one("do"),
        'な' | 'ナ' => one("na"),
        'に' | 'ニ' => one("ni"),
        'ぬ' | 'ヌ' => one("nu"),
        'ね' | 'ネ' => one("ne"),
        'の' | 'ノ' => one("no"),
        'は' | 'ハ' => one("ha"),
        'ひ' | 'ヒ' => one("hi"),
        'ふ' | 'フ' => two("hu", "fu"),
        'へ' | 'ヘ' => one("he"),
        'ほ' | 'ホ' => one("ho"),
        'ば' | 'バ' => one("ba"),
        'び' | 'ビ' => one("bi"),
        'ぶ' | 'ブ' => one("bu"),
        'べ' | 'ベ' => one("be"),
        'ぼ' | 'ボ' => one("bo"),
        'ぱ' | 'パ' => one("pa"),
        'ぴ' | 'ピ' => one("pi"),
        'ぷ' | 'プ' => one("pu"),
        'ぺ' | 'ペ' => one("pe"),
        'ぽ' | 'ポ' => one("po"),
        'ま' | 'マ' => one("ma"),
        'み' | 'ミ' => one("mi"),
        'む' | 'ム' => one("mu"),
        'め' | 'メ' => one("me"),
        'も' | 'モ' => one("mo"),
        'や' | 'ヤ' => one("ya"),
        'ゆ' | 'ユ' => one("yu"),
        'よ' | 'ヨ' => one("yo"),
        'ら' | 'ラ' => one("ra"),
        'り' | 'リ' => one("ri"),
        'る' | 'ル' => one("ru"),
        'れ' | 'レ' => one("re"),
        'ろ' | 'ロ' => one("ro"),
        'わ' | 'ワ' => one("wa"),
        'を' | 'ヲ' => one("wo"),
        'ん' | 'ン' => two("nn", "xn"),
        'ゔ' | 'ヴ' => one("vu"),
        'ぁ' | 'ァ' => two("xa", "la"),
        'ぃ' | 'ィ' => two("xi", "li"),
        'ぅ' | 'ゥ' => two("xu", "lu"),
        'ぇ' | 'ェ' => two("xe", "le"),
        'ぉ' | 'ォ' => two("xo", "lo"),
        'ゃ' | 'ャ' => two("xya", "lya"),
        'ゅ' | 'ュ' => two("xyu", "lyu"),
        'ょ' | 'ョ' => two("xyo", "lyo"),
        'ゎ' | 'ヮ' => two("xwa", "lwa"),
        'っ' | 'ッ' => three("ltu", "xtu", "ltsu"),
        'ー' => one("-"),
        _ => none(),
    }
}

/// The spelling of the Latin letter or hyphen `c`: the letter in lower case.
/// Any other character has none.
pub open spec fn spec_latin(c: char) -> Seq<Seq<char>> {
    match c {
        'a' | 'A' => seq!["a"@],
        'b' | 'B' => seq!["b"@],
        'c' | 'C' => seq!["c"@],
        'd' | 'D' => seq!["d"@],
        'e' | 'E' => seq!["e"@],
        'f' | 'F' => seq!["f"@],
        'g' | 'G' => seq!["g"@],
        'h' | 'H' => seq!["h"@],
        'i' | 'I' => seq!["i"@],
        'j' | 'J' => seq!["j"@],
        'k' | 'K' => seq!["k"@],
        'l' | 'L' => seq!["l"@],
        'm' | 'M' => seq!["m"@],
        'n' | 'N' => seq!["n"@],
        'o' | 'O' => seq!["o"@],
        'p' | 'P' => seq!["p"@],
        'q' | 'Q' => seq!["q"@],
        'r' | 'R' => seq!["r"@],
        's' | 'S' => seq!["s"@],
        't' | 'T' => seq!["t"@],
        'u' | 'U' => seq!["u"@],
        'v' | 'V' => seq!["v"@],
        'w' | 'W' => seq!["w"@],
        'x' | 'X' => seq!["x"@],
        'y' | 'Y' => seq!["y"@],
        'z' | 'Z' => seq!["z"@],
        '-' => seq!["-"@],
        _ => Seq::empty(),
    }
}

/// The spelling of the Latin letter or hyphen `c`.
pub fn latin(c: char) -> (styles: Vec<&'static str>)
    ensures
        style_views(styles@) == spec_latin(c),
{
    match c {
        'a' | 'A' => one("a"),
        'b' | 'B' => one("b"),
        'c' | 'C' => one("c"),
        'd' | 'D' => one("d"),
        'e' | 'E' => one("e"),
        'f' | 'F' => one("f"),
        'g' | 'G' => one("g"),
        'h' | 'H' => one("h"),
        'i' | 'I' => one("i"),
        'j' | 'J' => one("j"),
        'k' | 'K' => one("k"),
        'l' | 'L' => one("l"),
        'm' | 'M' => one("m"),
        'n' | 'N' => one("n"),
        'o' | 'O' => one("o"),
        'p' | 'P' => one("p"),
        'q' | 'Q' => one("q"),
        'r' | 'R' => one("r"),
        's' | 'S' => one("s"),
        't' | 'T' => one("t"),
        'u' | 'U' => one("u"),
        'v' | 'V' => one("v"),
        'w' | 'W' => one("w"),
        'x' | 'X' => one("x"),
        'y' | 'Y' => one("y"),
        'z' | 'Z' => one("z"),
        '-' => one("-"),
        _ => none(),
    }
}

/// The spellings of the contracted syllable written `a` and then the small
/// `b`, the preferred one first. Two characters that form no such syllable
/// have none.
pub open spec fn spec_contracted(a: char, b: char) -> Seq<Seq<char>> {
    match (a, b) {
        ('き', 'ゃ') | ('き', 'ャ') | ('キ', 'ゃ') | ('キ', 'ャ') => seq!["kya"@],
        ('き', 'ゅ') | ('き', 'ュ') | ('キ', 'ゅ') | ('キ', 'ュ') => seq!["kyu"@],
        ('き', 'ょ') | ('き', 'ョ') | ('キ', 'ょ') | ('キ', 'ョ') => seq!["kyo"@],
        ('ぎ', 'ゃ') | ('ぎ', 'ャ') | ('ギ', 'ゃ') | ('ギ', 'ャ') => seq!["gya"@],
        ('ぎ', 'ゅ') | ('ぎ', 'ュ') | ('ギ', 'ゅ') | ('ギ', 'ュ') => seq!["gyu"@],
        ('ぎ', 'ょ') | ('ぎ', 'ョ') | ('ギ', 'ょ') | ('ギ', 'ョ') => seq!["gyo"@],
        ('し', 'ゃ') | ('し', 'ャ') | ('シ', 'ゃ') | ('シ', 'ャ') => seq!["sya"@, "sha"@],
        ('し', 'ゅ') | ('し', 'ュ') | ('シ', 'ゅ') | ('シ', 'ュ') => seq!["syu"@, "shu"@],
        ('し', 'ょ') | ('し', 'ョ') | ('シ', 'ょ') | ('シ', 'ョ') => seq!["syo"@, "sho"@],
        ('じ', 'ゃ') | ('じ', 'ャ') | ('ジ', 'ゃ') | ('ジ', 'ャ') => seq!["zya"@, "ja"@, "jya"@],
        ('じ', 'ゅ') | ('じ', 'ュ') | ('ジ', 'ゅ') | ('ジ', 'ュ') => seq!["zyu"@, "ju"@, "jyu"@],
        ('じ', 'ょ') | ('じ', 'ョ') | ('ジ', 'ょ') | ('ジ', 'ョ') => seq!["zyo"@, "jo"@, "jyo"@],
        ('ち', 'ゃ') | ('ち', 'ャ') | ('チ', 'ゃ') | ('チ', 'ャ') => seq!["tya"@, "cha"@, "cya"@],
        ('ち', 'ゅ') | ('ち', 'ュ') | ('チ', 'ゅ') | ('チ', 'ュ') => seq!["tyu"@, "chu"@, "cyu"@],
        ('ち', 'ょ') | ('ち', 'ョ') | ('チ', 'ょ') | ('チ', 'ョ') => seq!["tyo"@, "cho"@, "cyo"@],
        ('ぢ', 'ゃ') | ('ぢ', 'ャ') | ('ヂ', 'ゃ') | ('ヂ', 'ャ') => seq!["dya"@],
        ('ぢ', 'ゅ') | ('ぢ', 'ュ') | ('ヂ', 'ゅ') | ('ヂ', 'ュ') => seq!["dyu"@],
        ('ぢ', 'ょ') | ('ぢ', 'ョ') | ('ヂ', 'ょ') | ('ヂ', 'ョ') => seq!["dyo"@],
        ('に', 'ゃ') | ('に', 'ャ') | ('ニ', 'ゃ') | ('ニ', 'ャ') => seq!["nya"@],
        ('に', 'ゅ') | ('に', 'ュ') | ('ニ', 'ゅ') | ('ニ', 'ュ') => seq!["nyu"@],
        ('に', 'ょ') | ('に', 'ョ') | ('ニ', 'ょ') | ('ニ', 'ョ') => seq!["nyo"@],
        ('ひ', 'ゃ') | ('ひ', 'ャ') | ('ヒ', 'ゃ') | ('ヒ', 'ャ') => seq!["hya"@],
        ('ひ', 'ゅ') | ('ひ', 'ュ') | ('ヒ', 'ゅ') | ('ヒ', 'ュ') => seq!["hyu"@],
        ('ひ', 'ょ') | ('ひ', 'ョ') | ('ヒ', 'ょ') | ('ヒ', 'ョ') => seq!["hyo"@],
        ('び', 'ゃ') | ('び', 'ャ') | ('ビ', 'ゃ') | ('ビ', 'ャ') => seq!["bya"@],
        ('び', 'ゅ') | ('び', 'ュ') | ('ビ', 'ゅ') | ('ビ', 'ュ') => seq!["byu"@],
        ('び', 'ょ') | ('び', 'ョ') | ('ビ', 'ょ') | ('ビ', 'ョ') => seq!["byo"@],
        ('ぴ', 'ゃ') | ('ぴ', 'ャ') | ('ピ', 'ゃ') | ('ピ', 'ャ') => seq!["pya"@],
        ('ぴ', 'ゅ') | ('ぴ', 'ュ') | ('ピ', 'ゅ') | ('ピ', 'ュ') => seq!["pyu"@],
        ('ぴ', 'ょ') | ('ぴ', 'ョ') | ('ピ', 'ょ') | ('ピ', 'ョ') => seq!["pyo"@],
        ('み', 'ゃ') | ('み', 'ャ') | ('ミ', 'ゃ') | ('ミ', 'ャ') => seq!["mya"@],
        ('み', 'ゅ') | ('み', 'ュ') | ('ミ', 'ゅ') | ('ミ', 'ュ') => seq!["myu"@],
        ('み', 'ょ') | ('み', 'ョ') | ('ミ', 'ょ') | ('ミ', 'ョ') => seq!["myo"@],
        ('り', 'ゃ') | ('り', 'ャ') | ('リ', 'ゃ') | ('リ', 'ャ') => seq!["rya"@],
        ('り', 'ゅ') | ('り', 'ュ') | ('リ', 'ゅ') | ('リ', 'ュ') => seq!["ryu"@],
        ('り', 'ょ') | ('り', 'ョ') | ('リ', 'ょ') | ('リ', 'ョ') => seq!["ryo"@],
        _ => Seq::empty(),
    }
}

/// The spellings of the contracted syllable written `a` and then the small
/// `b`.
pub fn contracted(a: char, b: char) -> (styles: Vec<&'static str>)
    ensures
        style_views(styles@) == spec_contracted(a, b),
{
    match (a, b) {
        ('き', 'ゃ') | ('き', 'ャ') | ('キ', 'ゃ') | ('キ', 'ャ') => one("kya"),
        ('き', 'ゅ') | ('き', 'ュ') | ('キ', 'ゅ') | ('キ', 'ュ') => one("kyu"),
        ('き', 'ょ') | ('き', 'ョ') | ('キ', 'ょ') | ('キ', 'ョ') => one("kyo"),
        ('ぎ', 'ゃ') | ('ぎ', 'ャ') | ('ギ', 'ゃ') | ('ギ', 'ャ') => one("gya"),
        ('ぎ', 'ゅ') | ('ぎ', 'ュ') | ('ギ', 'ゅ') | ('ギ', 'ュ') => one("gyu"),
        ('ぎ', 'ょ') | ('ぎ', 'ョ') | ('ギ', 'ょ') | ('ギ', 'ョ') => one("gyo"),
        ('し', 'ゃ') | ('し', 'ャ') | ('シ', 'ゃ') | ('シ', 'ャ') => two("sya", "sha"),
        ('し', 'ゅ') | ('し', 'ュ') | ('シ', 'ゅ') | ('シ', 'ュ') => two("syu", "shu"),
        ('し', 'ょ') | ('し', 'ョ') | ('シ', 'ょ') | ('シ', 'ョ') => two("syo", "sho"),
        ('じ', 'ゃ') | ('じ', 'ャ') | ('ジ', 'ゃ') | ('ジ', 'ャ') => three("zya", "ja", "jya"),
        ('じ', 'ゅ') | ('じ', 'ュ') | ('ジ', 'ゅ') | ('ジ', 'ュ') => three("zyu", "ju", "jyu"),
        ('じ', 'ょ') | ('じ', 'ョ') | ('ジ', 'ょ') | ('ジ', 'ョ') => three("zyo", "jo", "jyo"),
        ('ち', 'ゃ') | ('ち', 'ャ') | ('チ', 'ゃ') | ('チ', 'ャ') => three("tya", "cha", "cya"),
        ('ち', 'ゅ') | ('ち', 'ュ') | ('チ', 'ゅ') | ('チ', 'ュ') => three("tyu", "chu", "cyu"),
        ('ち', 'ょ') | ('ち', 'ョ') | ('チ', 'ょ') | ('チ', 'ョ') => three("tyo", "cho", "cyo"),
        ('ぢ', 'ゃ') | ('ぢ', 'ャ') | ('ヂ', 'ゃ') | ('ヂ', 'ャ') => one("dya"),
        ('ぢ', 'ゅ') | ('ぢ', 'ュ') | ('ヂ', 'ゅ') | ('ヂ', 'ュ') => one("dyu"),
        ('ぢ', 'ょ') | ('ぢ', 'ョ') | ('ヂ', 'ょ') | ('ヂ', 'ョ') => one("dyo"),
        ('に', 'ゃ') | ('に', 'ャ') | ('ニ', 'ゃ') | ('ニ', 'ャ') => one("nya"),
        ('に', 'ゅ') | ('に', 'ュ') | ('ニ', 'ゅ') | ('ニ', 'ュ') => one("nyu"),
        ('に', 'ょ') | ('に', 'ョ') | ('ニ', 'ょ') | ('ニ', 'ョ') => one("nyo"),
        ('ひ', 'ゃ') | ('ひ', 'ャ') | ('ヒ', 'ゃ') | ('ヒ', 'ャ') => one("hya"),
        ('ひ', 'ゅ') | ('ひ', 'ュ') | ('ヒ', 'ゅ') | ('ヒ', 'ュ') => one("hyu"),
        ('ひ', 'ょ') | ('ひ', 'ョ') | ('ヒ', 'ょ') | ('ヒ', 'ョ') => one("hyo"),
        ('び', 'ゃ') | ('び', 'ャ') | ('ビ', 'ゃ') | ('ビ', 'ャ') => one("bya"),
        ('び', 'ゅ') | ('び', 'ュ') | ('ビ', 'ゅ') | ('ビ', 'ュ') => one("byu"),
        ('び', 'ょ') | ('び', 'ョ') | ('ビ', 'ょ') | ('ビ', 'ョ') => one("byo"),
        ('ぴ', 'ゃ') | ('ぴ', 'ャ') | ('ピ', 'ゃ') | ('ピ', 'ャ') => one("pya"),
        ('ぴ', 'ゅ') | ('ぴ', 'ュ') | ('ピ', 'ゅ') | ('ピ', 'ュ') => one("pyu"),
        ('ぴ', 'ょ') | ('ぴ', 'ョ') | ('ピ', 'ょ') | ('ピ', 'ョ') => one("pyo"),
        ('み', 'ゃ') | ('み', 'ャ') | ('ミ', 'ゃ') | ('ミ', 'ャ') => one("mya"),
        ('み', 'ゅ') | ('み', 'ュ') | ('ミ', 'ゅ') | ('ミ', 'ュ') => one("myu"),
        ('み', 'ょ') | ('み', 'ョ') | ('ミ', 'ょ') | ('ミ', 'ョ') => one("myo"),
        ('り', 'ゃ') | ('り', 'ャ') | ('リ', 'ゃ') | ('リ', 'ャ') => one("rya"),
        ('り', 'ゅ') | ('り', 'ュ') | ('リ', 'ゅ') | ('リ', 'ュ') => one("ryu"),
        ('り', 'ょ') | ('り', 'ョ') | ('リ', 'ょ') | ('リ', 'ョ') => one("ryo"),
        _ => none(),
    }
}

/// Whether `c` is a consonant that, typed twice, writes the small tsu before
/// the syllable it begins.
pub open spec fn is_doubling(c: char) -> bool {
    match c {
        'b' | 'c' | 'd' | 'f' | 'g' | 'h' | 'j' | 'k' | 'm' | 'p' | 'q' | 'r' | 's' | 't' | 'v' | 'w' | 'y' | 'z' => true,
        _ => false,
    }
}

/// The one-letter spelling of the doubling consonant `c`.
pub fn doubling_letter(c: char) -> (letter: Option<&'static str>)
    ensures
        is_doubling(c) ==> letter is Some && letter->Some_0@ == seq![c],
        !is_doubling(c) ==> letter is None,
{
    match c {
        'b' => {
            proof {
                reveal_strlit("b");
            }
            assert("b"@ =~= seq!['b']);
            Some("b")
        },
        'c' => {
            proof {
                reveal_strlit("c");
            }
            assert("c"@ =~= seq!['c']);
            Some("c")
        },
        'd' => {
            proof {
                reveal_strlit("d");
            }
            assert("d"@ =~= seq!['d']);
            Some("d")
        },
        'f' => {
            proof {
                reveal_strlit("f");
            }
            assert("f"@ =~= seq!['f']);
            Some("f")
        },
        'g' => {
            proof {
                reveal_strlit("g");
            }
            assert("g"@ =~= seq!['g']);
            Some("g")
        },
        'h' => {
            proof {
                reveal_strlit("h");
            }
            assert("h"@ =~= seq!['h']);
            Some("h")
        },
        'j' => {
            proof {
                reveal_strlit("j");
            }
            assert("j"@ =~= seq!['j']);
            Some("j")
        },
        'k' => {
            proof {
                reveal_strlit("k");
            }
            assert("k"@ =~= seq!['k']);
            Some("k")
        },
        'm' => {
            proof {
                reveal_strlit("m");
            }
            assert("m"@ =~= seq!['m']);
            Some("m")
        },
        'p' => {
            proof {
                reveal_strlit("p");
            }
            assert("p"@ =~= seq!['p']);
            Some("p")
        },
        'q' => {
            proof {
                reveal_strlit("q");
            }
            assert("q"@ =~= seq!['q']);
            Some("q")
        },
        'r' => {
            proof {
                reveal_strlit("r");
            }
            assert("r"@ =~= seq!['r']);
            Some("r")
        },
        's' => {
            proof {
                reveal_strlit("s");
            }
            assert("s"@ =~= seq!['s']);
            Some("s")
        },
        't' => {
            proof {
                reveal_strlit("t");
            }
            assert("t"@ =~= seq!['t']);
            Some("t")
        },
        'v' => {
            proof {
                reveal_strlit("v");
            }
            assert("v"@ =~= seq!['v']);
            Some("v")
        },
        'w' => {
            proof {
                reveal_strlit("w");
            }
            assert("w"@ =~= seq!['w']);
            Some("w")
        },
        'y' => {
            proof {
                reveal_strlit("y");
            }
            assert("y"@ =~= seq!['y']);
            Some("y")
        },
        'z' => {
            proof {
                reveal_strlit("z");
            }
            assert("z"@ =~= seq!['z']);
            Some("z")
        },
        _ => None,
    }
}

/// Whether `c` is the small tsu.
pub open spec fn is_sokuon(c: char) -> bool {
    c == 'っ' || c == 'ッ'
}

/// Whether `c` is the small tsu.
pub fn sokuon(c: char) -> (b: bool)
    ensures
        b == is_sokuon(c),
{
    c == 'っ' || c == 'ッ'
}

} // verus!
