//! Helpers of the mapping editor: pointer ids for new buttons, the random
//! offset algorithm cycle, button labels, mapping file names, and the key
//! handling of the advanced parameter editor.

use vstd::prelude::*;
use crate::text::{
    chars_of, decimal, equal_chars, join, owned, push_chars, push_decimal, push_str,
    string_from_chars,
};
use crate::fingerprint::hex_digit;

verus! {

broadcast use vstd::string::group_string_axioms;

/// The highest pointer id that a new mapping button can get.
pub const MAX_POINTER_ID: u32 = 31;

/// `id` is not used by any of the pointer ids `used` (each read as `u32`).
pub open spec fn pointer_free(used: Seq<u64>, id: u32) -> bool {
    forall|j: int| 0 <= j < used.len() ==> used[j] as u32 != id
}

fn is_free(used: &[u64], id: u32) -> (r: bool)
    ensures
        r == pointer_free(used@, id),
{
    let mut j: usize = 0;
    while j < used.len()
        invariant
            j <= used@.len(),
            forall|k: int| 0 <= k < j ==> used@[k] as u32 != id,
        decreases used@.len() - j,
    {
        if used[j] as u32 == id {
            return false;
        }
        j = j + 1;
    }
    true
}

/// The pointer id for a new mapping button: the smallest id from 1 to 31
/// that no existing button uses, or 31 when all are taken. `used` holds the
/// `pointer_id` numbers of the existing buttons.
pub fn next_pointer_id(used: &[u64]) -> (r: u32)
    ensures
        1 <= r <= MAX_POINTER_ID,
        forall|id: u32| 1 <= id < r ==> !pointer_free(used@, id),
        r < MAX_POINTER_ID ==> pointer_free(used@, r),
        r == MAX_POINTER_ID ==> (pointer_free(used@, r) || forall|id: u32|
            1 <= id <= MAX_POINTER_ID ==> !pointer_free(used@, id)),
{
    let mut id: u32 = 1;
    while id <= MAX_POINTER_ID
        invariant
            1 <= id <= MAX_POINTER_ID + 1,
            forall|k: u32| 1 <= k < id ==> !pointer_free(used@, k),
        decreases MAX_POINTER_ID + 1 - id,
    {
        if is_free(used, id) {
            return id;
        }
        id = id + 1;
    }
    MAX_POINTER_ID
}

/// The random offset algorithm that follows `current`; a missing or
/// unknown name counts as the first of the cycle.
pub open spec fn next_algorithm(current: Option<Seq<char>>) -> Seq<char> {
    let c = match current {
        Some(c) => c,
        None => "Bezier"@,
    };
    if c == "ExtremeRandom"@ {
        "Bezier"@
    } else if c == "Bezier"@ {
        "Linear"@
    } else if c == "Linear"@ {
        "Sine"@
    } else if c == "Sine"@ {
        "RandomWalk"@
    } else if c == "RandomWalk"@ {
        "ExtremeRandom"@
    } else {
        "Bezier"@
    }
}

fn is_word(c: &[char], word: &str) -> (r: bool)
    ensures
        r == (c@ == word@),
{
    let w = chars_of(word);
    equal_chars(c, w.as_slice())
}

/// The random offset algorithm after `current` in the cycle ExtremeRandom,
/// Bezier, Linear, Sine, RandomWalk; `current` is the mapping's
/// `random_offset_algorithm` string, if it has one.
pub fn cycle_random_algorithm(current: Option<&str>) -> (r: &'static str)
    ensures
        r@ == next_algorithm(
            match current {
                Some(c) => Some(c@),
                None => None,
            },
        ),
{
    let c = match current {
        Some(c) => chars_of(c),
        None => chars_of("Bezier"),
    };
    if is_word(c.as_slice(), "ExtremeRandom") {
        "Bezier"
    } else if is_word(c.as_slice(), "Bezier") {
        "Linear"
    } else if is_word(c.as_slice(), "Linear") {
        "Sine"
    } else if is_word(c.as_slice(), "Sine") {
        "RandomWalk"
    } else if is_word(c.as_slice(), "RandomWalk") {
        "ExtremeRandom"
    } else {
        "Bezier"
    }
}

/// The short name of a mapping type shown on its button.
pub open spec fn kind_label(kind: Seq<char>) -> Seq<char> {
    if kind == "SingleTap"@ {
        "单击"@
    } else if kind == "RepeatTap"@ {
        "连点"@
    } else if kind == "MultipleTap"@ {
        "多点"@
    } else if kind == "Swipe"@ {
        "滑动"@
    } else if kind == "DirectionPad"@ {
        "方向盘"@
    } else if kind == "MouseCastSpell"@ {
        "万向拖动"@
    } else if kind == "PadCastSpell"@ {
        "轮盘施法"@
    } else if kind == "CancelCast"@ {
        "取消施法"@
    } else if kind == "Observation"@ {
        "观察"@
    } else if kind == "Fps"@ {
        "FPS"@
    } else if kind == "Fire"@ {
        "开火"@
    } else if kind == "RawInput"@ {
        "直控"@
    } else if kind == "Script"@ {
        "脚本"@
    } else {
        kind
    }
}

fn kind_label_exec(kind: &str) -> (r: String)
    ensures
        r@ == kind_label(kind@),
{
    let k = chars_of(kind);
    let s = k.as_slice();
    if is_word(s, "SingleTap") {
        owned("单击")
    } else if is_word(s, "RepeatTap") {
        owned("连点")
    } else if is_word(s, "MultipleTap") {
        owned("多点")
    } else if is_word(s, "Swipe") {
        owned("滑动")
    } else if is_word(s, "DirectionPad") {
        owned("方向盘")
    } else if is_word(s, "MouseCastSpell") {
        owned("万向拖动")
    } else if is_word(s, "PadCastSpell") {
        owned("轮盘施法")
    } else if is_word(s, "CancelCast") {
        owned("取消施法")
    } else if is_word(s, "Observation") {
        owned("观察")
    } else if is_word(s, "Fps") {
        owned("FPS")
    } else if is_word(s, "Fire") {
        owned("开火")
    } else if is_word(s, "RawInput") {
        owned("直控")
    } else if is_word(s, "Script") {
        owned("脚本")
    } else {
        owned(kind)
    }
}

/// A list of optional strings as plain values.
pub open spec fn optional_strings_view(items: Seq<Option<String>>) -> Seq<Option<Seq<char>>> {
    items.map_values(
        |o: Option<String>|
            match o {
                Some(s) => Some(s@),
                None => None,
            },
    )
}

/// The strings among `items`, in order.
pub open spec fn present(items: Seq<Option<Seq<char>>>) -> Seq<Seq<char>>
    decreases items.len(),
{
    if items.len() == 0 {
        Seq::<Seq<char>>::empty()
    } else {
        match items.last() {
            Some(s) => present(items.drop_last()).push(s),
            None => present(items.drop_last()),
        }
    }
}

/// The binding line of a button: its bound keys joined by `+`, or `未绑定`
/// when nothing is bound. `bind` holds the entries of the mapping's `bind`
/// array (`None` for entries that are not strings), if it is an array.
pub open spec fn bind_text(bind: Option<Seq<Option<Seq<char>>>>) -> Seq<char> {
    match bind {
        Some(items) => {
            let joined = join(present(items), "+"@);
            if joined.len() == 0 {
                "未绑定"@
            } else {
                joined
            }
        },
        None => "未绑定"@,
    }
}

/// The two-line label of a mapping button: the short name of its type and
/// its binding. `kind` is the mapping's `type` string, if it has one.
pub open spec fn short_label(kind: Option<Seq<char>>, bind: Option<Seq<Option<Seq<char>>>>) -> Seq<
    char,
> {
    let k = match kind {
        Some(k) => k,
        None => "按键"@,
    };
    kind_label(k) + "\n"@ + bind_text(bind)
}

/// The label of a mapping button.
pub fn mapping_short_label(kind: Option<&str>, bind: Option<&Vec<Option<String>>>) -> (r: String)
    ensures
        r@ == short_label(
            match kind {
                Some(k) => Some(k@),
                None => None,
            },
            match bind {
                Some(b) => Some(optional_strings_view(b@)),
                None => None,
            },
        ),
{
    let label = match kind {
        Some(k) => kind_label_exec(k),
        None => kind_label_exec("按键"),
    };
    let mut out = chars_of(label.as_str());
    push_str(&mut out, "\n");
    let bind_part: Vec<char> = match bind {
        Some(items) => {
            let ghost all = optional_strings_view(items@);
            let mut strings: Vec<String> = Vec::new();
            let mut i: usize = 0;
            assert(all.take(0) =~= Seq::<Option<Seq<char>>>::empty());
            while i < items.len()
                invariant
                    i <= items@.len(),
                    all == optional_strings_view(items@),
                    crate::text::strings_view(strings@) == present(all.take(i as int)),
                decreases items@.len() - i,
            {
                assert(all.take(i + 1).drop_last() =~= all.take(i as int));
                match &items[i] {
                    Some(s) => {
                        let ghost before = crate::text::strings_view(strings@);
                        strings.push(s.clone());
                        assert(crate::text::strings_view(strings@) =~= before.push(s@));
                    },
                    None => {},
                }
                i = i + 1;
            }
            assert(all.take(i as int) =~= all);
            let joined = crate::text::join_strings(&strings, "+");
            if joined.len() == 0 {
                chars_of("未绑定")
            } else {
                joined
            }
        },
        None => chars_of("未绑定"),
    };
    push_chars(&mut out, bind_part.as_slice());
    string_from_chars(out.as_slice())
}

/// `s` with every trailing `.json` removed (`trim_end_matches(".json")`).
pub open spec fn strip_json(s: Seq<char>) -> Seq<char>
    decreases s.len(),
{
    if s.len() >= 5 && s.subrange(s.len() - 5, s.len() as int) == ".json"@ {
        strip_json(s.take(s.len() - 5))
    } else {
        s
    }
}

/// The name of a mapping file without its `.json` extension.
pub fn mapping_stem(file: &str) -> (r: String)
    ensures
        r@ == strip_json(file@),
{
    proof {
        reveal_strlit(".json");
    }
    let chars = chars_of(file);
    let ext = chars_of(".json");
    let mut end = chars.len();
    assert(chars@.take(end as int) =~= chars@);
    while end >= 5
        invariant
            end <= chars@.len(),
            chars@ == file@,
            ext@ == ".json"@,
            ext@.len() == 5,
            strip_json(file@) == strip_json(chars@.take(end as int)),
        ensures
            end <= chars@.len(),
            strip_json(file@) == chars@.take(end as int),
        decreases end,
    {
        let mut same = true;
        let mut k: usize = 0;
        while k < 5
            invariant
                k <= 5,
                5 <= end <= chars@.len(),
                ext@.len() == 5,
                same == (forall|j: int| 0 <= j < k ==> chars@[end - 5 + j] == ext@[j]),
            decreases 5 - k,
        {
            if chars[end - 5 + k] != ext[k] {
                same = false;
            }
            k = k + 1;
        }
        let ghost t = chars@.take(end as int);
        if same {
            assert(t.subrange(t.len() - 5, t.len() as int) =~= ".json"@);
            assert(t.take(t.len() - 5) =~= chars@.take(end - 5));
            end = end - 5;
        } else {
            assert(t.subrange(t.len() - 5, t.len() as int) != ".json"@) by {
                let j = choose|j: int| 0 <= j < 5 && chars@[end - 5 + j] != ext@[j];
                assert(t.subrange(t.len() - 5, t.len() as int)[j] == chars@[end - 5 + j]);
            }
            break;
        }
    }
    let mut out: Vec<char> = Vec::new();
    let mut i: usize = 0;
    while i < end
        invariant
            i <= end <= chars@.len(),
            out@ == chars@.take(i as int),
        decreases end - i,
    {
        out.push(chars[i]);
        i = i + 1;
        assert(out@ =~= chars@.take(i as int));
    }
    string_from_chars(out.as_slice())
}

/// The file-name prefix for a copy (or renamed copy) of mapping `file`:
/// its stem followed by `suffix`.
pub fn derived_prefix(file: &str, suffix: &str) -> (r: String)
    ensures
        r@ == strip_json(file@) + suffix@,
{
    let stem = mapping_stem(file);
    let mut out = chars_of(stem.as_str());
    push_str(&mut out, suffix);
    string_from_chars(out.as_slice())
}

/// The numbered file name `{prefix}-{index}.json`.
pub open spec fn candidate_name(prefix: Seq<char>, index: nat) -> Seq<char> {
    prefix + "-"@ + decimal(index) + ".json"@
}

/// Eight lower-case hexadecimal digits of `x`, most significant first
/// (`format!("{:08x}", x)`).
pub open spec fn hex8(x: u32) -> Seq<char> {
    Seq::new(8, |k: int| hex_digit(((x >> ((28 - 4 * k) as u32)) & 0xF) as nat))
}

/// The fallback file name `{prefix}-{xxxxxxxx}.json`.
pub open spec fn random_name(prefix: Seq<char>, x: u32) -> Seq<char> {
    prefix + "-"@ + hex8(x) + ".json"@
}

/// Calls `rand::random::<u32>()`. Nothing is claimed of the result: it is
/// random.
#[verifier::external_body]
fn random_u32() -> u32 {
    rand::random::<u32>()
}

/// `x` written as eight lower-case hexadecimal digits.
pub fn hex8_text(x: u32) -> (r: Vec<char>)
    ensures
        r@ == hex8(x),
{
    let mut out: Vec<char> = Vec::new();
    let mut k: u32 = 0;
    while k < 8
        invariant
            k <= 8,
            out@ == hex8(x).take(k as int),
        decreases 8 - k,
    {
        let shift: u32 = 28 - 4 * k;
        let d = (x >> shift) & 0xF;
        assert(d < 16) by (bit_vector)
            requires
                d == (x >> shift) & 0xF,
        ;
        let c = crate::fingerprint::hex_digit_exec(d as u8);
        out.push(c);
        k = k + 1;
        assert(out@ =~= hex8(x).take(k as int));
    }
    out
}

/// A fresh mapping id: eight hexadecimal digits of a random number.
pub fn random_mapping_id() -> (r: String)
    ensures
        r@.len() == 8,
        exists|x: u32| r@ == hex8(x),
{
    let x = random_u32();
    let digits = hex8_text(x);
    string_from_chars(digits.as_slice())
}

/// The name `candidate_name(prefix, index)` was probed and found taken.
pub open spec fn probed_taken<F: Fn(&String) -> bool>(is_taken: F, prefix: Seq<char>, index: nat) -> bool {
    exists|s: String| s@ == candidate_name(prefix, index) && call_ensures(is_taken, (&s,), true)
}

fn candidate(prefix: &str, index: u64) -> (r: String)
    ensures
        r@ == candidate_name(prefix@, index as nat),
{
    let mut out = chars_of(prefix);
    push_str(&mut out, "-");
    push_decimal(&mut out, index);
    push_str(&mut out, ".json");
    string_from_chars(out.as_slice())
}

/// A mapping file name that is not taken yet: the first of
/// `{prefix}-1.json` … `{prefix}-9999.json` that `is_taken` reports free,
/// or, when all are taken, `{prefix}-{random hex}.json`. `is_taken` tells
/// whether a file of that name exists in the mapping directory.
pub fn unique_mapping_file<F: Fn(&String) -> bool>(prefix: &str, is_taken: F) -> (r: String)
    requires
        forall|s: &String| is_taken.requires((s,)),
    ensures
        (exists|i: nat|
            1 <= i <= 9999 && r@ == candidate_name(prefix@, i) && call_ensures(is_taken, (&r,), false)
                && forall|j: nat| 1 <= j < i ==> #[trigger] probed_taken(is_taken, prefix@, j)) || ((
        forall|j: nat| 1 <= j <= 9999 ==> #[trigger] probed_taken(is_taken, prefix@, j)) && exists|
            x: u32,
        | r@ == random_name(prefix@, x)),
{
    let mut index: u64 = 1;
    while index <= 9999
        invariant
            1 <= index <= 10000,
            forall|s: &String| is_taken.requires((s,)),
            forall|j: nat| 1 <= j < index ==> #[trigger] probed_taken(is_taken, prefix@, j),
        decreases 10000 - index,
    {
        let name = candidate(prefix, index);
        let taken = is_taken(&name);
        if !taken {
            return name;
        }
        assert(probed_taken(is_taken, prefix@, index as nat));
        index = index + 1;
    }
    let x = random_u32();
    let mut out = chars_of(prefix);
    push_str(&mut out, "-");
    let digits = hex8_text(x);
    push_chars(&mut out, digits.as_slice());
    push_str(&mut out, ".json");
    assert(out@ =~= random_name(prefix@, x));
    string_from_chars(out.as_slice())
}

/// `a` comes before `b` in the order of `String`: lexicographic by code
/// point (which is the byte order of their UTF-8 encodings).
pub open spec fn lex_lt(a: Seq<char>, b: Seq<char>) -> bool
    decreases a.len(),
{
    if a.len() == 0 {
        b.len() > 0
    } else if b.len() == 0 {
        false
    } else if (a[0] as u32) < (b[0] as u32) {
        true
    } else if (a[0] as u32) > (b[0] as u32) {
        false
    } else {
        lex_lt(a.drop_first(), b.drop_first())
    }
}

proof fn lemma_lex_lt_transitive(a: Seq<char>, b: Seq<char>, c: Seq<char>)
    requires
        lex_lt(a, b),
        lex_lt(b, c),
    ensures
        lex_lt(a, c),
    decreases a.len(),
{
    if a.len() > 0 && b.len() > 0 && c.len() > 0 && (a[0] as u32) == (b[0] as u32) && (b[0] as u32)
        == (c[0] as u32) {
        lemma_lex_lt_transitive(a.drop_first(), b.drop_first(), c.drop_first());
    }
}

proof fn lemma_lex_lt_irreflexive(a: Seq<char>)
    ensures
        !lex_lt(a, a),
    decreases a.len(),
{
    if a.len() > 0 {
        lemma_lex_lt_irreflexive(a.drop_first());
    }
}

fn lex_less(a: &[char], b: &[char]) -> (r: bool)
    ensures
        r == lex_lt(a@, b@),
{
    let mut i: usize = 0;
    assert(a@.skip(0) =~= a@);
    assert(b@.skip(0) =~= b@);
    loop
        invariant
            i <= a@.len(),
            i <= b@.len(),
            lex_lt(a@, b@) == lex_lt(a@.skip(i as int), b@.skip(i as int)),
        decreases a@.len() - i,
    {
        if i == a.len() {
            return i < b.len();
        }
        if i == b.len() {
            return false;
        }
        let x = a[i] as u32;
        let y = b[i] as u32;
        if x < y {
            return true;
        }
        if x > y {
            return false;
        }
        assert(a@.skip(i as int).drop_first() =~= a@.skip(i + 1));
        assert(b@.skip(i as int).drop_first() =~= b@.skip(i + 1));
        proof {
            vstd::utf8::char_u32_cast(a@[i as int], x);
            vstd::utf8::char_u32_cast(b@[i as int], y);
        }
        i = i + 1;
    }
}

/// A directory entry whose extension is `json`: the name ends in `.json`
/// after a non-empty stem (`Path::extension`).
pub open spec fn is_json_file(name: Seq<char>) -> bool {
    name.len() > 5 && name.subrange(name.len() - 5, name.len() as int) == ".json"@
}

fn is_json_name(name: &[char]) -> (r: bool)
    ensures
        r == is_json_file(name@),
{
    if name.len() <= 5 {
        return false;
    }
    let ext = chars_of(".json");
    let mut tail: Vec<char> = Vec::new();
    let mut k = name.len() - 5;
    while k < name.len()
        invariant
            name@.len() > 5,
            name@.len() - 5 <= k <= name@.len(),
            tail@ == name@.subrange(name@.len() - 5, k as int),
        decreases name@.len() - k,
    {
        tail.push(name[k]);
        k = k + 1;
        assert(tail@ =~= name@.subrange(name@.len() - 5, k as int));
    }
    equal_chars(tail.as_slice(), ext.as_slice())
}

/// The mapping file to continue with: the first `.json` file of the
/// mapping directory in name order. `names` are the names of the
/// directory's entries.
pub fn first_mapping_file(names: &Vec<String>) -> (r: Option<String>)
    ensures
        r is None <==> forall|i: int| 0 <= i < names@.len() ==> !is_json_file(#[trigger] names@[i]@),
        r matches Some(m) ==> is_json_file(m@) && (exists|i: int|
            0 <= i < names@.len() && #[trigger] names@[i]@ == m@) && forall|i: int|
            0 <= i < names@.len() && is_json_file(#[trigger] names@[i]@) ==> !lex_lt(names@[i]@, m@),
{
    let mut best: Option<Vec<char>> = None;
    let mut best_index: usize = 0;
    let mut i: usize = 0;
    while i < names.len()
        invariant
            i <= names@.len(),
            best is None <==> forall|j: int| 0 <= j < i ==> !is_json_file(#[trigger] names@[j]@),
            best matches Some(b) ==> best_index < i,
            best matches Some(b) ==> b@ == names@[best_index as int]@,
            best matches Some(b) ==> is_json_file(b@),
            best matches Some(b) ==> forall|j: int|
                0 <= j < i && is_json_file(#[trigger] names@[j]@) ==> !lex_lt(names@[j]@, b@),
        decreases names@.len() - i,
    {
        let name = chars_of(names[i].as_str());
        if is_json_name(name.as_slice()) {
            let replace = match &best {
                None => true,
                Some(b) => lex_less(name.as_slice(), b.as_slice()),
            };
            if replace {
                proof {
                    lemma_lex_lt_irreflexive(name@);
                    if best is Some {
                        let b = best->0;
                        assert forall|j: int| 0 <= j < i && is_json_file(#[trigger] names@[j]@) implies !lex_lt(names@[j]@, name@) by {
                            if lex_lt(names@[j]@, name@) {
                                lemma_lex_lt_transitive(names@[j]@, name@, b@);
                            }
                        }
                    }
                }
                best = Some(name);
                best_index = i;
            }
        }
        i = i + 1;
    }
    match best {
        Some(b) => Some(string_from_chars(b.as_slice())),
        None => None,
    }
}

/// Whether mapping `file` may be deleted: the active mapping may not.
pub fn check_deletable(active: &str, file: &str) -> (r: Result<(), String>)
    ensures
        r is Ok <==> active@ != file@,
        r matches Err(e) ==> e@ == "当前启用的映射不能删除，请先启用其他配置"@,
{
    let a = chars_of(active);
    let f = chars_of(file);
    if equal_chars(a.as_slice(), f.as_slice()) {
        Err(owned("当前启用的映射不能删除，请先启用其他配置"))
    } else {
        Ok(())
    }
}

/// The active mapping file after mapping `old` was renamed to `new`: the
/// active file follows a rename of itself and is otherwise kept.
pub fn active_after_rename(active: &str, old: &str, new: &str) -> (r: String)
    ensures
        r@ == if active@ == old@ {
            new@
        } else {
            active@
        },
{
    let a = chars_of(active);
    let o = chars_of(old);
    if equal_chars(a.as_slice(), o.as_slice()) {
        owned(new)
    } else {
        owned(active)
    }
}

/// A key press in the advanced parameter editor.
#[derive(Debug)]
pub enum EditorKey {
    Escape,
    Backspace,
    /// Enter or the keypad's Enter.
    Enter,
    Tab,
    /// Any other key, with the text it types (if any).
    Text(Option<String>),
}

/// The editor text after the key presses `keys`, and whether Escape
/// cancelled the editor (keys after Escape are ignored).
pub open spec fn apply_keys(buffer: Seq<char>, keys: Seq<EditorKey>) -> (Seq<char>, bool)
    decreases keys.len(),
{
    if keys.len() == 0 {
        (buffer, false)
    } else {
        let rest = keys.drop_first();
        match keys[0] {
            EditorKey::Escape => (buffer, true),
            EditorKey::Backspace => apply_keys(
                if buffer.len() > 0 {
                    buffer.drop_last()
                } else {
                    buffer
                },
                rest,
            ),
            EditorKey::Enter => apply_keys(buffer.push('\n'), rest),
            EditorKey::Tab => apply_keys(buffer + "  "@, rest),
            EditorKey::Text(Some(t)) => apply_keys(buffer + t@, rest),
            EditorKey::Text(None) => apply_keys(buffer, rest),
        }
    }
}

/// Applies key presses to the advanced editor's text; returns whether
/// Escape cancelled the editor.
pub fn edit_buffer(buffer: &mut String, keys: &Vec<EditorKey>) -> (cancelled: bool)
    ensures
        (final(buffer)@, cancelled) == apply_keys(old(buffer)@, keys@),
{
    let mut text = chars_of(buffer.as_str());
    let ghost start = text@;
    let mut i: usize = 0;
    assert(keys@.skip(0) =~= keys@);
    let mut cancelled = false;
    loop
        invariant_except_break
            !cancelled,
        invariant
            i <= keys@.len(),
            apply_keys(text@, keys@.skip(i as int)) == apply_keys(start, keys@),
        ensures
            cancelled ==> (text@, true) == apply_keys(start, keys@),
            !cancelled ==> (text@, false) == apply_keys(start, keys@),
        decreases keys@.len() - i,
    {
        if i == keys.len() {
            assert(keys@.skip(i as int) =~= Seq::<EditorKey>::empty());
            break;
        }
        assert(keys@.skip(i as int)[0] == keys@[i as int]);
        assert(keys@.skip(i as int).drop_first() =~= keys@.skip(i + 1));
        match &keys[i] {
            EditorKey::Escape => {
                cancelled = true;
                break;
            },
            EditorKey::Backspace => {
                text.pop();
            },
            EditorKey::Enter => {
                text.push('\n');
            },
            EditorKey::Tab => {
                push_str(&mut text, "  ");
            },
            EditorKey::Text(Some(t)) => {
                push_str(&mut text, t.as_str());
            },
            EditorKey::Text(None) => {},
        }
        i = i + 1;
    }
    *buffer = string_from_chars(text.as_slice());
    cancelled
}

/// A button of the property panel of the selected mapping button.
#[derive(Clone, Copy, Debug, PartialEq, Eq, Structural)]
pub enum PropertyAction {
    SizeDown,
    SizeUp,
    RandomXDown,
    RandomXUp,
    RandomYDown,
    RandomYUp,
    CycleRandomAlgorithm,
    CaptureBinding,
    BindMouseLeft,
    AdvancedEdit,
    Delete,
}

/// A numeric parameter of a mapping button that the property panel steps.
#[derive(Clone, Copy, Debug, PartialEq, Eq, Structural)]
pub enum NumericField {
    /// `button_size`, 64 when missing.
    ButtonSize,
    /// `random_offset_x`, 0 when missing.
    RandomOffsetX,
    /// `random_offset_y`, 0 when missing.
    RandomOffsetY,
}

/// What a property button does to the mapping document.
#[derive(Clone, Copy, Debug, PartialEq, Eq, Structural)]
pub enum PropertyEffect {
    /// Nothing: no button is selected, no button list, or the selection is
    /// out of range.
    Ignore,
    /// Bind the direction pad at this index to W, S, A, D.
    BindDirectionPadWasd(usize),
    /// Wait for the key to bind.
    StartCapture,
    /// Bind the left mouse button to the button at this index.
    BindMouseLeft(usize),
    /// Open the advanced editor on the button at this index.
    OpenAdvanced(usize),
    /// Delete the button at this index.
    Delete(usize),
    /// Add `delta` to the field of the button at this index, clamped to
    /// `min..=max`.
    Adjust { index: usize, field: NumericField, delta: i32, min: i32, max: i32 },
    /// Move the button at this index to the next random offset algorithm.
    CycleAlgorithm(usize),
}

/// The effect of pressing `action` (if any was pressed) while the button
/// `selected` (if any) is selected; `mapping_count` is the length of the
/// document's button list (if it has one) and `selected_kind` the `type`
/// of the selected button.
pub open spec fn property_effect_of(
    selected: Option<usize>,
    mapping_count: Option<usize>,
    action: Option<PropertyAction>,
    selected_kind: Option<Seq<char>>,
) -> PropertyEffect {
    match (selected, action, mapping_count) {
        (Some(i), Some(a), Some(n)) => if i >= n {
            PropertyEffect::Ignore
        } else {
            match a {
                PropertyAction::CaptureBinding => if selected_kind == Some("DirectionPad"@) {
                    PropertyEffect::BindDirectionPadWasd(i)
                } else {
                    PropertyEffect::StartCapture
                },
                PropertyAction::BindMouseLeft => PropertyEffect::BindMouseLeft(i),
                PropertyAction::AdvancedEdit => PropertyEffect::OpenAdvanced(i),
                PropertyAction::Delete => PropertyEffect::Delete(i),
                PropertyAction::SizeDown => PropertyEffect::Adjust {
                    index: i,
                    field: NumericField::ButtonSize,
                    delta: -8i32,
                    min: 24,
                    max: 320,
                },
                PropertyAction::SizeUp => PropertyEffect::Adjust {
                    index: i,
                    field: NumericField::ButtonSize,
                    delta: 8,
                    min: 24,
                    max: 320,
                },
                PropertyAction::RandomXDown => PropertyEffect::Adjust {
                    index: i,
                    field: NumericField::RandomOffsetX,
                    delta: -1i32,
                    min: 0,
                    max: 200,
                },
                PropertyAction::RandomXUp => PropertyEffect::Adjust {
                    index: i,
                    field: NumericField::RandomOffsetX,
                    delta: 1,
                    min: 0,
                    max: 200,
                },
                PropertyAction::RandomYDown => PropertyEffect::Adjust {
                    index: i,
                    field: NumericField::RandomOffsetY,
                    delta: -1i32,
                    min: 0,
                    max: 200,
                },
                PropertyAction::RandomYUp => PropertyEffect::Adjust {
                    index: i,
                    field: NumericField::RandomOffsetY,
                    delta: 1,
                    min: 0,
                    max: 200,
                },
                PropertyAction::CycleRandomAlgorithm => PropertyEffect::CycleAlgorithm(i),
            }
        },
        _ => PropertyEffect::Ignore,
    }
}

/// The value of a numeric field after an `Adjust` step from `value`:
/// `value + delta`, kept within `min..=max`.
pub open spec fn stepped_value(value: int, delta: int, min: int, max: int) -> int {
    let v = value + delta;
    if v < min {
        min
    } else if v > max {
        max
    } else {
        v
    }
}

/// The adjustment of `e`: the index, field, step and range of an `Adjust`.
pub open spec fn adjustment(e: PropertyEffect) -> Option<(usize, NumericField, int, int, int)> {
    match e {
        PropertyEffect::Adjust { index, field, delta, min, max } => Some(
            (index, field, delta as int, min as int, max as int),
        ),
        _ => None,
    }
}

/// The up and down buttons of a numeric parameter step the selected
/// button's own field, in opposite directions, by the same amount, within
/// the same range: up never makes the value smaller and down never makes
/// it larger, and a value inside its range strictly grows on up unless it
/// is at the top. The size steps by 8 within 24..=320, the random offsets
/// by 1 within 0..=200.
pub proof fn law_up_and_down_step_oppositely(
    i: usize,
    n: usize,
    kind: Option<Seq<char>>,
    up: PropertyAction,
    down: PropertyAction,
    value: int,
)
    requires
        i < n,
        (up is SizeUp && down is SizeDown) || (up is RandomXUp && down is RandomXDown) || (up is RandomYUp
            && down is RandomYDown),
    ensures
        ({
            let u = adjustment(property_effect_of(Some(i), Some(n), Some(up), kind));
            let d = adjustment(property_effect_of(Some(i), Some(n), Some(down), kind));
            &&& u matches Some(a)
            &&& d matches Some(b)
            &&& a.0 == i && b.0 == i
            &&& a.1 == b.1 && a.3 == b.3 && a.4 == b.4
            &&& a.2 > 0 && b.2 == -a.2
            &&& a.3 < a.4
            &&& (up is SizeUp ==> a.1 == NumericField::ButtonSize && a.2 == 8 && a.3 == 24 && a.4 == 320)
            &&& (up is RandomXUp ==> a.1 == NumericField::RandomOffsetX && a.2 == 1 && a.3 == 0 && a.4 == 200)
            &&& (up is RandomYUp ==> a.1 == NumericField::RandomOffsetY && a.2 == 1 && a.3 == 0 && a.4 == 200)
            &&& (a.3 <= value <= a.4 ==> stepped_value(value, a.2, a.3, a.4) >= value && stepped_value(
                value,
                b.2,
                b.3,
                b.4,
            ) <= value)
            &&& (a.3 <= value < a.4 ==> stepped_value(value, a.2, a.3, a.4) > value)
        }),
{
}

/// Decides what a press on the property panel does.
pub fn property_effect(
    selected: Option<usize>,
    mapping_count: Option<usize>,
    action: Option<PropertyAction>,
    selected_kind: Option<&str>,
) -> (r: PropertyEffect)
    ensures
        r == property_effect_of(
            selected,
            mapping_count,
            action,
            match selected_kind {
                Some(k) => Some(k@),
                None => None,
            },
        ),
{
    let i = match selected {
        Some(i) => i,
        None => {
            return PropertyEffect::Ignore;
        },
    };
    let a = match action {
        Some(a) => a,
        None => {
            return PropertyEffect::Ignore;
        },
    };
    let n = match mapping_count {
        Some(n) => n,
        None => {
            return PropertyEffect::Ignore;
        },
    };
    if i >= n {
        return PropertyEffect::Ignore;
    }
    match a {
        PropertyAction::CaptureBinding => {
            let is_pad = match selected_kind {
                Some(k) => is_word(chars_of(k).as_slice(), "DirectionPad"),
                None => false,
            };
            if is_pad {
                PropertyEffect::BindDirectionPadWasd(i)
            } else {
                PropertyEffect::StartCapture
            }
        },
        PropertyAction::BindMouseLeft => PropertyEffect::BindMouseLeft(i),
        PropertyAction::AdvancedEdit => PropertyEffect::OpenAdvanced(i),
        PropertyAction::Delete => PropertyEffect::Delete(i),
        PropertyAction::SizeDown => PropertyEffect::Adjust {
            index: i,
            field: NumericField::ButtonSize,
            delta: -8,
            min: 24,
            max: 320,
        },
        PropertyAction::SizeUp => PropertyEffect::Adjust {
            index: i,
            field: NumericField::ButtonSize,
            delta: 8,
            min: 24,
            max: 320,
        },
        PropertyAction::RandomXDown => PropertyEffect::Adjust {
            index: i,
            field: NumericField::RandomOffsetX,
            delta: -1,
            min: 0,
            max: 200,
        },
        PropertyAction::RandomXUp => PropertyEffect::Adjust {
            index: i,
            field: NumericField::RandomOffsetX,
            delta: 1,
            min: 0,
            max: 200,
        },
        PropertyAction::RandomYDown => PropertyEffect::Adjust {
            index: i,
            field: NumericField::RandomOffsetY,
            delta: -1,
            min: 0,
            max: 200,
        },
        PropertyAction::RandomYUp => PropertyEffect::Adjust {
            index: i,
            field: NumericField::RandomOffsetY,
            delta: 1,
            min: 0,
            max: 200,
        },
        PropertyAction::CycleRandomAlgorithm => PropertyEffect::CycleAlgorithm(i),
    }
}

/// How waiting for a key to bind ends this frame.
#[derive(Clone, Copy, Debug, PartialEq, Eq, Structural)]
pub enum CaptureOutcome {
    /// Keep waiting (or not waiting at all): nothing changes.
    Wait,
    /// Escape was pressed: stop waiting.
    Cancelled,
    /// No button to bind to: stop waiting silently.
    Aborted,
    /// Bind the pressed key to the button at this index.
    Bind(usize),
}

/// The outcome of a frame of key capture. `capturing` is whether the editor
/// waits for a key; `first_key_is_escape` is `None` when no key was pressed
/// this frame, otherwise whether the first pressed key is Escape;
/// `selected` is the selected button and `mapping_exists` whether the
/// document has a button at that index.
pub fn capture_step(
    capturing: bool,
    first_key_is_escape: Option<bool>,
    selected: Option<usize>,
    mapping_exists: bool,
) -> (r: CaptureOutcome)
    ensures
        r == if !capturing || first_key_is_escape is None {
            CaptureOutcome::Wait
        } else if first_key_is_escape == Some(true) {
            CaptureOutcome::Cancelled
        } else {
            match selected {
                Some(i) => if mapping_exists {
                    CaptureOutcome::Bind(i)
                } else {
                    CaptureOutcome::Aborted
                },
                None => CaptureOutcome::Aborted,
            }
        },
{
    if !capturing {
        return CaptureOutcome::Wait;
    }
    let escape = match first_key_is_escape {
        Some(e) => e,
        None => {
            return CaptureOutcome::Wait;
        },
    };
    if escape {
        return CaptureOutcome::Cancelled;
    }
    match selected {
        Some(i) => if mapping_exists {
            CaptureOutcome::Bind(i)
        } else {
            CaptureOutcome::Aborted
        },
        None => CaptureOutcome::Aborted,
    }
}

} // verus!
