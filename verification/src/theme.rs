//! Where the theme of the desktop is found, and icons in its accent.

use vstd::prelude::*;

use crate::paths;
use crate::paths::join_path;
use crate::text;
use crate::text::{chars_of, join2, same, starts_with, text_of_range, trim};

verus! {

/// The desktop is dark. Where nothing says so it is taken to be.
pub open spec fn dark(mode: Option<Seq<char>>) -> bool {
    mode is Some ==> text::trimmed(mode->0) == "true"@
}

/// Whether the desktop is dark, by the contents of the file that says so.
pub fn is_dark(mode: Option<&str>) -> (r: bool)
    ensures
        r == dark(mode.deep_view()),
        mode is None ==> r,
        mode is Some ==> (r <==> text::trimmed(mode->0@) == "true"@),
{
    match mode {
        Some(s) => same(&trim(s), "true"),
        None => true,
    }
}

/// The directory with the settings of the desktop.
pub open spec fn config_dir(home: Seq<char>) -> Seq<char> {
    paths::joined(paths::joined(home, ".config"@), "cosmic"@)
}

/// The file that says whether the desktop is dark.
pub open spec fn mode_file(home: Seq<char>) -> Seq<char> {
    paths::joined(
        paths::joined(
            paths::joined(config_dir(home), "com.system76.CosmicTheme.Mode"@),
            "v1"@,
        ),
        "is_dark"@,
    )
}

/// The file with the accent.
pub open spec fn accent_file(home: Seq<char>, dark: bool) -> Seq<char> {
    let theme = if dark {
        "com.system76.CosmicTheme.Dark"@
    } else {
        "com.system76.CosmicTheme.Light"@
    };
    paths::joined(paths::joined(paths::joined(config_dir(home), theme), "v1"@), "accent"@)
}

/// The file that says whether the desktop is dark.
pub fn mode_path(home: &str) -> (r: String)
    ensures
        r@ == mode_file(home@),
        r@ == paths::joined(
        paths::joined(
            paths::joined(paths::joined(paths::joined(home@, ".config"@), "cosmic"@), "com.system76.CosmicTheme.Mode"@),
            "v1"@,
        ),
        "is_dark"@,
    ),
{
    let config = join_path(&join_path(home, ".config"), "cosmic");
    let mode = join_path(&config, "com.system76.CosmicTheme.Mode");
    join_path(&join_path(&mode, "v1"), "is_dark")
}

/// The file with the accent of a dark or of a light desktop.
pub fn accent_path(home: &str, dark: bool) -> (r: String)
    ensures
        r@ == accent_file(home@, dark),
        r@ == ({
let theme = if dark {
        "com.system76.CosmicTheme.Dark"@
    } else {
        "com.system76.CosmicTheme.Light"@
    };
    paths::joined(paths::joined(paths::joined(paths::joined(paths::joined(home@, ".config"@), "cosmic"@), theme), "v1"@), "accent"@)
        }),
{
    let config = join_path(&join_path(home, ".config"), "cosmic");
    let theme = if dark {
        join_path(&config, "com.system76.CosmicTheme.Dark")
    } else {
        join_path(&config, "com.system76.CosmicTheme.Light")
    };
    join_path(&join_path(&theme, "v1"), "accent")
}

/// A digit in base sixteen.
pub open spec fn hex_digit(n: int) -> char {
    if n < 10 {
        ('0' as int + n) as char
    } else {
        ('a' as int + n - 10) as char
    }
}

/// A byte in two digits.
pub open spec fn hex_byte(b: u8) -> Seq<char> {
    seq![hex_digit(b as int / 16), hex_digit(b as int % 16)]
}

fn digit(n: u8) -> (r: char)
    requires
        n < 16,
    ensures
        r == hex_digit(n as int),
{
    if n < 10 {
        (48 + n) as char
    } else {
        (87 + n) as char
    }
}

/// A colour in base sixteen.
pub open spec fn hex(red: u8, green: u8, blue: u8) -> Seq<char> {
    "#"@ + hex_byte(red) + hex_byte(green) + hex_byte(blue)
}

/// The colour in base sixteen.
pub fn hex_color(red: u8, green: u8, blue: u8) -> (r: String)
    ensures
        r@ == hex(red, green, blue),
        r@.len() == 7,
        r@[0] == '#',
        r@[1] == "0123456789abcdef"@[red as int / 16],
        r@[2] == "0123456789abcdef"@[red as int % 16],
        r@[3] == "0123456789abcdef"@[green as int / 16],
        r@[4] == "0123456789abcdef"@[green as int % 16],
        r@[5] == "0123456789abcdef"@[blue as int / 16],
        r@[6] == "0123456789abcdef"@[blue as int % 16],
{
    proof {
        reveal_strlit("#");
        lemma_hex_digits(red);
        lemma_hex_digits(green);
        lemma_hex_digits(blue);
    }
    let mut r = "#".to_owned();
    r.push(digit(red / 16));
    r.push(digit(red % 16));
    r.push(digit(green / 16));
    r.push(digit(green % 16));
    r.push(digit(blue / 16));
    r.push(digit(blue % 16));
    proof {
        assert(r@ =~= hex(red, green, blue));
    }
    r
}

/// A text with every occurrence of another replaced, from the left on.
pub open spec fn replaced(s: Seq<char>, from: Seq<char>, to: Seq<char>) -> Seq<char>
    decreases s.len(),
{
    if s.len() == 0 || from.len() == 0 {
        s
    } else if text::begins(s, from) {
        to + replaced(s.skip(from.len() as int), from, to)
    } else {
        seq![s[0]] + replaced(s.skip(1), from, to)
    }
}

/// An icon in the accent: the colour that icons are drawn in is replaced.
pub open spec fn recolored(svg: Seq<char>, color: Seq<char>) -> Seq<char> {
    replaced(svg, "#232323"@, color)
}

/// The icon in the accent.
pub fn recolor(svg: &str, red: u8, green: u8, blue: u8) -> (r: String)
    ensures
        r@ == recolored(svg@, hex(red, green, blue)),
{
    let color = hex_color(red, green, blue);
    let v = chars_of(svg);
    let ghost all = v@;
    let ghost from = "#232323"@;
    let mut r = String::new();
    let mut i: usize = 0;
    proof {
        reveal_strlit("#232323");
        assert(all.skip(0) =~= all);
        assert(r@ + replaced(all, from, color@) =~= replaced(all, from, color@));
    }
    while i < v.len()
        invariant
            i <= v@.len(),
            v@ == all,
            from == "#232323"@,
            from.len() == 7,
            r@ + replaced(all.skip(i as int), from, color@) == replaced(all, from, color@),
        decreases v@.len() - i,
    {
        let ghost before = r@;
        let rest = text_of_range(&v, i, v.len());
        proof {
            assert(rest@ =~= all.skip(i as int));
        }
        if starts_with(&rest, "#232323") {
            proof {
                assert(rest@.len() >= 7);
                assert(all.skip(i as int).skip(7) =~= all.skip(i + 7));
            }
            r = join2(&r, &color);
            proof {
                assert((before + color@) + replaced(all.skip(i + 7), from, color@) =~= before + (
                color@ + replaced(all.skip(i + 7), from, color@)));
            }
            i = i + 7;
        } else {
            let c = v[i];
            r.push(c);
            proof {
                assert(all.skip(i as int).skip(1) =~= all.skip(i + 1));
                assert(before.push(c) + replaced(all.skip(i + 1), from, color@) =~= before + (seq![c]
                    + replaced(all.skip(i + 1), from, color@)));
            }
            i = i + 1;
        }
    }
    proof {
        assert(all.skip(i as int).len() == 0);
        assert(r@ + all.skip(i as int) =~= r@);
    }
    r
}

/// A text that does not hold the colour of icons stays as it is.
pub proof fn lemma_other_colors_stay(s: Seq<char>, from: Seq<char>, to: Seq<char>)
    requires
        forall|i: int| 0 <= i <= s.len() ==> !text::begins(#[trigger] s.skip(i), from),
    ensures
        replaced(s, from, to) == s,
    decreases s.len(),
{
    if s.len() > 0 && from.len() > 0 {
        assert(s.skip(0) =~= s);
        let rest = s.skip(1);
        assert forall|i: int| 0 <= i <= rest.len() implies !text::begins(#[trigger] rest.skip(i), from) by {
            assert(rest.skip(i) =~= s.skip(i + 1));
        }
        lemma_other_colors_stay(rest, from, to);
        assert(seq![s[0]] + rest =~= s);
    }
}

/// A byte is written with the digits of base sixteen, the high one first.
pub proof fn lemma_hex_digits(b: u8)
    ensures
        hex_byte(b).len() == 2,
        hex_byte(b)[0] == "0123456789abcdef"@[b as int / 16],
        hex_byte(b)[1] == "0123456789abcdef"@[b as int % 16],
{
    reveal_strlit("0123456789abcdef");
}

/// Every occurrence of the colour of icons gives way to the accent, and
/// everything between the occurrences stays.
pub proof fn lemma_icon_colors_are_replaced(before: char, rest: Seq<char>, color: Seq<char>)
    ensures
        recolored("#232323"@ + rest, color) == color + recolored(rest, color),
        !text::begins(seq![before] + rest, "#232323"@) ==> recolored(seq![before] + rest, color)
            == seq![before] + recolored(rest, color),
        recolored(Seq::empty(), color).len() == 0,
{
    let from = "#232323"@;
    reveal_strlit("#232323");
    text::lemma_prefixes(from, rest, rest);
    assert((from + rest).skip(from.len() as int) =~= rest);
    assert((seq![before] + rest).skip(1) =~= rest);
    assert((seq![before] + rest)[0] == before);
}

} // verus!
