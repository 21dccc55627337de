//! Terminal colours of the prompt, and the keys that name them.
use vstd::prelude::*;
use crate::utils::text::{string_push, string_chars};

verus! {

/// Colours and text attributes that the prompt line can ask for.
#[derive(Copy, Clone, PartialEq, Eq, Debug, Structural)]
pub enum PromptColor {
    Red,
    Green,
    Yellow,
    Blue,
    Cyan,
    Magenta,
    Black,
    Gray,
    White,
    Bold,
    Blink,
    Select,
    Reset,
}

/// The prompt key `${name}`.
pub open spec fn key_seq(name: Seq<char>) -> Seq<char> {
    seq!['$', '{'] + name + seq!['}']
}

/// The name inside the prompt key of each colour.
pub open spec fn color_key_name(color: PromptColor) -> Seq<char> {
    match color {
        PromptColor::Red => seq!['K', 'R', 'E', 'D'],
        PromptColor::Green => seq!['K', 'G', 'R', 'N'],
        PromptColor::Yellow => seq!['K', 'Y', 'E', 'L'],
        PromptColor::Blue => seq!['K', 'B', 'L', 'U'],
        PromptColor::Cyan => seq!['K', 'C', 'Y', 'N'],
        PromptColor::Magenta => seq!['K', 'M', 'A', 'G'],
        PromptColor::Black => seq!['K', 'B', 'L', 'K'],
        PromptColor::Gray => seq!['K', 'G', 'R', 'Y'],
        PromptColor::White => seq!['K', 'W', 'H', 'T'],
        PromptColor::Bold => seq!['K', 'B', 'O', 'L', 'D'],
        PromptColor::Blink => seq!['K', 'B', 'L', 'I', 'N', 'K'],
        PromptColor::Select => seq!['K', 'S', 'E', 'L', 'E', 'C', 'T'],
        PromptColor::Reset => seq!['K', 'R', 'S', 'T'],
    }
}

/// The digits of the terminal escape sequence of each colour.
pub open spec fn color_digits(color: PromptColor) -> Seq<char> {
    match color {
        PromptColor::Red => seq!['3', '1'],
        PromptColor::Green => seq!['3', '2'],
        PromptColor::Yellow => seq!['3', '3'],
        PromptColor::Blue => seq!['3', '4'],
        PromptColor::Cyan => seq!['3', '6'],
        PromptColor::Magenta => seq!['3', '5'],
        PromptColor::Black => seq!['3', '0'],
        PromptColor::Gray => seq!['9', '0'],
        PromptColor::White => seq!['3', '7'],
        PromptColor::Bold => seq!['1'],
        PromptColor::Blink => seq!['5'],
        PromptColor::Select => seq!['7'],
        PromptColor::Reset => seq!['0'],
    }
}

/// The terminal escape sequence of a colour: `ESC [ digits m`.
pub open spec fn color_code(color: PromptColor) -> Seq<char> {
    seq!['\x1b', '['] + color_digits(color) + seq!['m']
}

/// The colour a prompt key names; any other key means `Reset`.
pub open spec fn color_of_key(key: Seq<char>) -> PromptColor {
    if key == key_seq(seq!['K', 'R', 'E', 'D']) {
        PromptColor::Red
    } else if key == key_seq(seq!['K', 'G', 'R', 'N']) {
        PromptColor::Green
    } else if key == key_seq(seq!['K', 'Y', 'E', 'L']) {
        PromptColor::Yellow
    } else if key == key_seq(seq!['K', 'B', 'L', 'U']) {
        PromptColor::Blue
    } else if key == key_seq(seq!['K', 'C', 'Y', 'N']) {
        PromptColor::Cyan
    } else if key == key_seq(seq!['K', 'M', 'A', 'G']) {
        PromptColor::Magenta
    } else if key == key_seq(seq!['K', 'B', 'L', 'K']) {
        PromptColor::Black
    } else if key == key_seq(seq!['K', 'G', 'R', 'Y']) {
        PromptColor::Gray
    } else if key == key_seq(seq!['K', 'W', 'H', 'T']) {
        PromptColor::White
    } else if key == key_seq(seq!['K', 'B', 'O', 'L', 'D']) {
        PromptColor::Bold
    } else if key == key_seq(seq!['K', 'B', 'L', 'I', 'N', 'K']) {
        PromptColor::Blink
    } else if key == key_seq(seq!['K', 'S', 'E', 'L', 'E', 'C', 'T']) {
        PromptColor::Select
    } else if key == key_seq(seq!['K', 'R', 'S', 'T']) {
        PromptColor::Reset
    } else {
        PromptColor::Reset
    }
}

/// Whether `v` is the prompt key `${name}`.
pub fn is_key(v: &Vec<char>, name: &[char]) -> (r: bool)
    ensures
        r == (v@ == key_seq(name@)),
{
    if v.len() < 3 || v.len() - 3 != name.len() {
        proof {
            if v@ == key_seq(name@) {
                assert(v@.len() == name@.len() + 3);
            }
        }
        return false;
    }
    let last = v.len() - 1;
    if v[0] != '$' || v[1] != '{' || v[last] != '}' {
        proof {
            if v@ == key_seq(name@) {
                assert(key_seq(name@)[0] == '$' && key_seq(name@)[1] == '{');
                assert(key_seq(name@)[last as int] == '}');
            }
        }
        return false;
    }
    let mut i: usize = 0;
    while i < name.len()
        invariant
            i <= name.len(),
            v.len() == name.len() + 3,
            forall|k: int| 0 <= k < i ==> v@[k + 2] == name@[k],
        decreases name.len() - i,
    {
        if v[i + 2] != name[i] {
            proof {
                if v@ == key_seq(name@) {
                    assert(key_seq(name@)[i + 2] == name@[i as int]);
                }
            }
            return false;
        }
        i += 1;
    }
    assert(v@ =~= key_seq(name@));
    true
}

impl PromptColor {
    /// The colour named by a prompt key; an unknown key gives `Reset`.
    pub fn from_key(key: &str) -> (c: PromptColor)
        ensures
            c == color_of_key(key@),
    {
        let v = string_chars(key);
        let is_red = {
            let k = ['K', 'R', 'E', 'D'];
            assert(k@ =~= seq!['K', 'R', 'E', 'D']);
            is_key(&v, k.as_slice())
        };
        let is_green = {
            let k = ['K', 'G', 'R', 'N'];
            assert(k@ =~= seq!['K', 'G', 'R', 'N']);
            is_key(&v, k.as_slice())
        };
        let is_yellow = {
            let k = ['K', 'Y', 'E', 'L'];
            assert(k@ =~= seq!['K', 'Y', 'E', 'L']);
            is_key(&v, k.as_slice())
        };
        let is_blue = {
            let k = ['K', 'B', 'L', 'U'];
            assert(k@ =~= seq!['K', 'B', 'L', 'U']);
            is_key(&v, k.as_slice())
        };
        let is_cyan = {
            let k = ['K', 'C', 'Y', 'N'];
            assert(k@ =~= seq!['K', 'C', 'Y', 'N']);
            is_key(&v, k.as_slice())
        };
        let is_magenta = {
            let k = ['K', 'M', 'A', 'G'];
            assert(k@ =~= seq!['K', 'M', 'A', 'G']);
            is_key(&v, k.as_slice())
        };
        let is_black = {
            let k = ['K', 'B', 'L', 'K'];
            assert(k@ =~= seq!['K', 'B', 'L', 'K']);
            is_key(&v, k.as_slice())
        };
        let is_gray = {
            let k = ['K', 'G', 'R', 'Y'];
            assert(k@ =~= seq!['K', 'G', 'R', 'Y']);
            is_key(&v, k.as_slice())
        };
        let is_white = {
            let k = ['K', 'W', 'H', 'T'];
            assert(k@ =~= seq!['K', 'W', 'H', 'T']);
            is_key(&v, k.as_slice())
        };
        let is_bold = {
            let k = ['K', 'B', 'O', 'L', 'D'];
            assert(k@ =~= seq!['K', 'B', 'O', 'L', 'D']);
            is_key(&v, k.as_slice())
        };
        let is_blink = {
            let k = ['K', 'B', 'L', 'I', 'N', 'K'];
            assert(k@ =~= seq!['K', 'B', 'L', 'I', 'N', 'K']);
            is_key(&v, k.as_slice())
        };
        let is_select = {
            let k = ['K', 'S', 'E', 'L', 'E', 'C', 'T'];
            assert(k@ =~= seq!['K', 'S', 'E', 'L', 'E', 'C', 'T']);
            is_key(&v, k.as_slice())
        };
        let is_reset = {
            let k = ['K', 'R', 'S', 'T'];
            assert(k@ =~= seq!['K', 'R', 'S', 'T']);
            is_key(&v, k.as_slice())
        };
        if is_red {
            PromptColor::Red
        } else if is_green {
            PromptColor::Green
        } else if is_yellow {
            PromptColor::Yellow
        } else if is_blue {
            PromptColor::Blue
        } else if is_cyan {
            PromptColor::Cyan
        } else if is_magenta {
            PromptColor::Magenta
        } else if is_black {
            PromptColor::Black
        } else if is_gray {
            PromptColor::Gray
        } else if is_white {
            PromptColor::White
        } else if is_bold {
            PromptColor::Bold
        } else if is_blink {
            PromptColor::Blink
        } else if is_select {
            PromptColor::Select
        } else if is_reset {
            PromptColor::Reset
        } else {
            PromptColor::Reset
        }
    }

    /// The terminal escape sequence of the colour.
    pub fn to_string(&self) -> (s: String)
        ensures
            s@ == color_code(*self),
    {
        let mut s = String::new();
        string_push(&mut s, '\x1b');
        string_push(&mut s, '[');
        match self {
            PromptColor::Red => {
                string_push(&mut s, '3');
                string_push(&mut s, '1');
            },
            PromptColor::Green => {
                string_push(&mut s, '3');
                string_push(&mut s, '2');
            },
            PromptColor::Yellow => {
                string_push(&mut s, '3');
                string_push(&mut s, '3');
            },
            PromptColor::Blue => {
                string_push(&mut s, '3');
                string_push(&mut s, '4');
            },
            PromptColor::Cyan => {
                string_push(&mut s, '3');
                string_push(&mut s, '6');
            },
            PromptColor::Magenta => {
                string_push(&mut s, '3');
                string_push(&mut s, '5');
            },
            PromptColor::Black => {
                string_push(&mut s, '3');
                string_push(&mut s, '0');
            },
            PromptColor::Gray => {
                string_push(&mut s, '9');
                string_push(&mut s, '0');
            },
            PromptColor::White => {
                string_push(&mut s, '3');
                string_push(&mut s, '7');
            },
            PromptColor::Bold => {
                string_push(&mut s, '1');
            },
            PromptColor::Blink => {
                string_push(&mut s, '5');
            },
            PromptColor::Select => {
                string_push(&mut s, '7');
            },
            PromptColor::Reset => {
                string_push(&mut s, '0');
            },
        }
        string_push(&mut s, 'm');
        assert(s@ =~= color_code(*self));
        s
    }
}


/// The prompt key of each colour names that colour: reading the key back
/// gives the colour.
pub proof fn law_color_key_names_its_color(color: PromptColor)
    ensures
        color_of_key(key_seq(color_key_name(color))) == color,
{
    let k = key_seq(color_key_name(color));
    let names: Seq<Seq<char>> = seq![
        seq!['K', 'R', 'E', 'D'],
        seq!['K', 'G', 'R', 'N'],
        seq!['K', 'Y', 'E', 'L'],
        seq!['K', 'B', 'L', 'U'],
        seq!['K', 'C', 'Y', 'N'],
        seq!['K', 'M', 'A', 'G'],
        seq!['K', 'B', 'L', 'K'],
        seq!['K', 'G', 'R', 'Y'],
        seq!['K', 'W', 'H', 'T'],
        seq!['K', 'B', 'O', 'L', 'D'],
        seq!['K', 'B', 'L', 'I', 'N', 'K'],
        seq!['K', 'S', 'E', 'L', 'E', 'C', 'T'],
        seq!['K', 'R', 'S', 'T'],
    ];
    assert forall|i: int| 0 <= i < names.len() && names[i] != color_key_name(color)
        implies key_seq(names[i]) != k by {
        let a = names[i];
        let b = color_key_name(color);
        if a.len() == b.len() {
            let j = choose|j: int| 0 <= j < a.len() && a[j] != b[j];
            assert(key_seq(a)[j + 2] == a[j]);
            assert(key_seq(b)[j + 2] == b[j]);
        } else {
            assert(key_seq(a).len() != key_seq(b).len());
        }
    }
    assert(names[0] == seq!['K', 'R', 'E', 'D']);
}

/// Different colours have different escape sequences.
pub proof fn law_colors_have_distinct_codes(a: PromptColor, b: PromptColor)
    ensures
        color_code(a) == color_code(b) ==> a == b,
{
    if color_code(a) == color_code(b) && a != b {
        assert(color_code(a).len() == color_code(b).len());
        assert(color_code(a)[2] == color_code(b)[2]);
        if color_digits(a).len() == 2 {
            assert(color_code(a)[3] == color_code(b)[3]);
        }
    }
}

} // verus!
