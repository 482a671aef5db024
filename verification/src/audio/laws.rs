//! What holds of the texts that the sound tools print, stated on these texts and on
//! the fields of what becomes of them.

use vstd::prelude::*;

use crate::audio::pipewire::{
    behind_bracket, default_sink_in as pipewire_default, devices_in, ends_sinks, entry_in,
    is_branch, outside_list, says_muted, starred_name, state_in, tag_in,
    tagged_muted, tagged_volume, unbracketed, volume_in, without_blanks_and_points,
    without_branches,
};
use crate::audio::pulseaudio::{
    described, device_called, devices_in as pulse_devices, devices_so_far, has_white,
    labelled_sink, marks_default, percentage, report, sink_in_line, state_in as pulse_state,
    with_device, without_colons, ChannelsView,
};
use crate::audio::router::{ChannelView, RouterView};
use crate::audio::{
    exponent_at, is_decimal, is_float, is_plain_decimal, leading_digits, tool_text, unsigned,
    AudioDeviceType, DeviceView, ToolOutcome, VolumeView,
};
use crate::text::{
    begins, contains, dec, is_digit, is_white, law_first_piece_ends_at_separator,
    law_text_is_cut_at_the_first_character, law_text_is_cut_at_the_first_mark,
    law_text_without_white_space_is_one_word, law_trimmed_text_has_no_white_ends,
    law_word_behind_a_blank, lemma_dec_is_number, lines, lossy_text, lower, lower_all,
    split, split_once, split_text, strip_prefix, strip_suffix, trim, trim_end, trim_start,
    without_leading, words,
};
use crate::types::ErrorView;

verus! {

/// A text without white space.
pub open spec fn one_word(t: Seq<char>) -> bool {
    t.len() > 0 && forall|i: int| 0 <= i < t.len() ==> !is_white(#[trigger] t[i])
}

/// A text that is not empty and has no white space at its ends.
pub open spec fn tidy(t: Seq<char>) -> bool {
    t.len() > 0 && !is_white(t[0]) && !is_white(t.last())
}

// ---------------------------------------------------------------------------
// Numbers
// ---------------------------------------------------------------------------
/// A word that begins neither with a digit, a point or a sign nor like a name for a
/// number is no number.
proof fn lemma_no_number(s: Seq<char>)
    requires
        s.len() > 0,
        !is_digit(s[0]),
        s[0] != '.',
        s[0] != '+',
        s[0] != '-',
        s[0] != 'e',
        s[0] != 'E',
        lower(s[0]) != 'i',
        lower(s[0]) != 'n',
    ensures
        !is_float(s),
{
    let at = exponent_at(s);
    let head = s.take(at as int);
    lemma_exponent(s);
    assert(unsigned(s) == s);
    assert(head.len() > 0 && head[0] == s[0]);
    assert(leading_digits(head) == 0 && leading_digits(s) == 0);
    assert(head.skip(0) =~= head);
    assert(s.skip(0) =~= s);
    assert(!is_plain_decimal(head));
    assert(!is_plain_decimal(s));
    assert(!is_decimal(s));
    reveal_strlit("inf");
    reveal_strlit("infinity");
    reveal_strlit("nan");
    assert(lower_all(s)[0] == lower(s[0]));
    assert("inf"@[0] == 'i' && "infinity"@[0] == 'i' && "nan"@[0] == 'n');
}

proof fn lemma_exponent(s: Seq<char>)
    ensures
        exponent_at(s) <= s.len(),
        s.len() > 0 && s[0] != 'e' && s[0] != 'E' ==> exponent_at(s) > 0,
    decreases s.len(),
{
    if s.len() > 0 && s[0] != 'e' && s[0] != 'E' {
        lemma_exponent(s.skip(1));
    }
}

/// Digits, a point and digits are a number, and so are digits alone.
pub proof fn law_decimal_fractions_are_numbers(a: Seq<char>, b: Seq<char>)
    requires
        a.len() > 0,
        b.len() > 0,
        forall|i: int| 0 <= i < a.len() ==> is_digit(#[trigger] a[i]),
        forall|i: int| 0 <= i < b.len() ==> is_digit(#[trigger] b[i]),
    ensures
        is_float(a),
        is_float(a + seq!['.'] + b),
{
    let s = a + seq!['.'] + b;
    assert(is_digit(a[0]));
    assert(s[0] == a[0]);
    lemma_digits(a, Seq::empty());
    assert(a + Seq::<char>::empty() =~= a);
    assert(a.skip(a.len() as int).len() == 0);
    lemma_digits(a, seq!['.'] + b);
    assert(a + (seq!['.'] + b) =~= s);
    assert(s.skip(a.len() as int) =~= seq!['.'] + b);
    assert((seq!['.'] + b).skip(1) =~= b);
    lemma_digits(b, Seq::empty());
    assert(b + Seq::<char>::empty() =~= b);
    assert(is_plain_decimal(a));
    assert(is_plain_decimal(s));
    lemma_no_exponent(a);
    assert forall|i: int| 0 <= i < s.len() implies s[i] != 'e' && s[i] != 'E' by {
        if i < a.len() {
            assert(is_digit(a[i]));
        } else if i > a.len() {
            assert(s[i] == b[i - a.len() - 1]);
            assert(is_digit(b[i - a.len() - 1]));
        }
    }
    lemma_no_exponent(s);
}

proof fn lemma_digits(a: Seq<char>, rest: Seq<char>)
    requires
        forall|i: int| 0 <= i < a.len() ==> is_digit(#[trigger] a[i]),
        rest.len() == 0 || !is_digit(rest[0]),
    ensures
        leading_digits(a + rest) == a.len(),
    decreases a.len(),
{
    let s = a + rest;
    if a.len() > 0 {
        assert(is_digit(a[0]));
        assert(s[0] == a[0]);
        assert(s.skip(1) =~= a.skip(1) + rest);
        assert forall|i: int| 0 <= i < a.skip(1).len() implies is_digit(#[trigger] a.skip(1)[i]) by {
            assert(a.skip(1)[i] == a[i + 1]);
        }
        lemma_digits(a.skip(1), rest);
    } else {
        assert(s =~= rest);
    }
}

proof fn lemma_no_exponent(s: Seq<char>)
    requires
        forall|i: int| 0 <= i < s.len() ==> s[i] != 'e' && s[i] != 'E',
    ensures
        exponent_at(s) == s.len(),
    decreases s.len(),
{
    if s.len() > 0 {
        assert forall|i: int| 0 <= i < s.skip(1).len() implies s.skip(1)[i] != 'e' && s.skip(1)[i]
            != 'E' by {
            assert(s.skip(1)[i] == s[i + 1]);
        }
        lemma_no_exponent(s.skip(1));
    }
}

// ---------------------------------------------------------------------------
// PipeWire: the volume
// ---------------------------------------------------------------------------
/// The volume is the number behind the word `Volume:`, and the sound is off if and
/// only if the word `[MUTED]` follows.
pub proof fn law_volume_line_is_read(v: Seq<char>)
    requires
        one_word(v),
        is_float(v),
    ensures
        volume_in("Volume: "@ + v) == Some((v, false)),
        volume_in("Volume: "@ + v + " [MUTED]"@) == Some((v, true)),
{
    reveal_strlit("Volume: ");
    reveal_strlit("Volume:");
    reveal_strlit(" [MUTED]");
    reveal_strlit("[MUTED]");
    let head = "Volume:"@;
    let mute = "[MUTED]"@;
    law_text_without_white_space_is_one_word(head);
    assert("Volume: "@ + v =~= head + seq![' '] + v);
    law_word_behind_a_blank(head, v);
    let ws = words("Volume: "@ + v);
    assert(ws =~= seq![head, v]);
    lemma_no_number(head);
    assert(ws.drop_last() =~= seq![head]);
    lemma_head_is_no_mute();
    assert(ws[0] == head && ws[1] == v);
    let line = "Volume: "@ + v + " [MUTED]"@;
    assert(line =~= "Volume: "@ + v + seq![' '] + mute);
    law_word_behind_a_blank("Volume: "@ + v, mute);
    let all = words(line);
    assert(all =~= seq![head, v, mute]);
    lemma_no_number(mute);
    assert(all.drop_last() =~= ws);
    lemma_mute_word();
    assert(all[2] == mute);
    assert(!is_float(all[2]) && says_muted(all[2]));
}

proof fn lemma_head_is_no_mute()
    ensures
        !says_muted("Volume:"@),
{
    reveal_strlit("Volume:");
    reveal_strlit("muted");
    assert(unbracketed("Volume:"@) == "Volume:"@);
    assert(lower_all("Volume:"@).len() == 7);
}

proof fn lemma_mute_word()
    ensures
        says_muted("[MUTED]"@),
{
    reveal_strlit("[MUTED]");
    reveal_strlit("muted");
    let a = "[MUTED]"@.skip(1);
    let b = a.drop_last();
    assert(a[0] == 'M' && a.last() == ']');
    assert(b[0] == 'M' && b.last() == 'D');
    assert(unbracketed(b) == b);
    assert(unbracketed(a) == b);
    assert(unbracketed("[MUTED]"@) == b);
    assert(lower_all(b) =~= "muted"@);
}

/// What the tool prints of the volume is what is reported: the number, and whether the
/// sound is off. Without a name of its own the sink goes by the tool's name for it.
pub proof fn law_state_is_what_the_tool_printed(v: Seq<char>, status: Option<Seq<char>>)
    requires
        one_word(v),
        is_float(v),
    ensures
        state_in("Volume: "@ + v, status) matches Ok(a) && a.volume == VolumeView::Fraction(v)
            && !a.muted,
        state_in("Volume: "@ + v + " [MUTED]"@, status) matches Ok(b) && b.volume
            == VolumeView::Fraction(v) && b.muted,
        state_in("Volume: "@ + v, None) matches Ok(c) && c.default_sink
            == "@DEFAULT_AUDIO_SINK@"@,
{
    law_volume_line_is_read(v);
    reveal_strlit("@DEFAULT_AUDIO_SINK@");
}

// ---------------------------------------------------------------------------
// PipeWire: the devices
// ---------------------------------------------------------------------------
/// An entry of a list of devices as the tool prints it, behind its mark: the number,
/// the name and the tags.
pub open spec fn entry_text(n: nat, name: Seq<char>, tags: Seq<char>) -> Seq<char> {
    dec(n) + seq!['.'] + (seq![' '] + name + seq![' '] + seq!['['] + tags)
}

proof fn lemma_tidy_between_blanks(name: Seq<char>)
    requires
        tidy(name),
    ensures
        trim(seq![' '] + name + seq![' ']) == name,
        trim(seq![' '] + name) == name,
        trim(name) == name,
{
    lemma_blank_in_front(name + seq![' ']);
    assert(seq![' '] + name + seq![' '] =~= seq![' '] + (name + seq![' ']));
    assert((name + seq![' '])[0] == name[0]);
    assert(trim_start(name + seq![' ']) == name + seq![' ']);
    lemma_blank_behind(name);
    assert(trim_end(name) == name);
    lemma_blank_in_front(name);
    assert(trim_start(name) == name);
}

proof fn lemma_blank_in_front(s: Seq<char>)
    ensures
        trim_start(seq![' '] + s) == trim_start(s),
{
    let t = seq![' '] + s;
    assert(t[0] == ' ' && is_white(' '));
    assert(t.skip(1) =~= s);
}

proof fn lemma_blank_behind(s: Seq<char>)
    ensures
        trim_end(s + seq![' ']) == trim_end(s),
{
    let t = s + seq![' '];
    assert(t.last() == ' ' && is_white(' '));
    assert(t.drop_last() =~= s);
}

proof fn lemma_behind_bracket(a: Seq<char>, t: Seq<char>)
    requires
        !t.contains('['),
    ensures
        behind_bracket(t) == t,
        behind_bracket(a + seq!['['] + t) == t,
    decreases t.len(),
{
    let s = a + seq!['['] + t;
    if t.len() == 0 {
        assert(s.last() == '[');
        assert(t =~= Seq::<char>::empty());
    } else {
        let front = t.drop_last();
        assert(t.contains(t[t.len() - 1]));
        assert(!front.contains('[')) by {
            if front.contains('[') {
                let k = choose|k: int| 0 <= k < front.len() && front[k] == '[';
                assert(t[k] == '[');
            }
        }
        lemma_behind_bracket(a, front);
        assert(s.drop_last() =~= a + seq!['['] + front);
        assert(s.last() == t.last());
        assert(front.push(t.last()) =~= t);
    }
}

/// The tag with a volume.
proof fn lemma_volume_tag(v: Seq<char>)
    requires
        one_word(v),
        !v.contains('['),
    ensures
        strip_prefix(tag_in("vol: "@ + v), "vol:"@) matches Some(rest) && trim(rest) == v,
        lower_all(tag_in("vol: "@ + v)) != "muted"@,
{
    reveal_strlit("vol: ");
    reveal_strlit("vol:");
    reveal_strlit("muted");
    let t = "vol: "@ + v;
    assert(!is_white(v[v.len() - 1]) && !is_white(v[0]));
    assert(t.last() == v[v.len() - 1]);
    assert(trim_end(t) == t);
    assert(!t.contains('[')) by {
        if t.contains('[') {
            let k = choose|k: int| 0 <= k < t.len() && t[k] == '[';
            if k >= 5 {
                assert(v[k - 5] == '[');
            }
        }
    }
    lemma_behind_bracket(Seq::empty(), t);
    assert(t[0] == 'v');
    assert(trim_start(t) == t);
    assert(tag_in(t) == t);
    assert(t.take(4) =~= "vol:"@);
    assert(t.skip(4) =~= seq![' '] + v);
    lemma_tidy_between_blanks(v);
    assert(lower_all(t)[0] == 'v');
    assert("muted"@[0] == 'm');
}

proof fn lemma_empty_tag()
    ensures
        strip_prefix(tag_in(Seq::empty()), "vol:"@) is None,
        lower_all(tag_in(Seq::empty())) != "muted"@,
{
    reveal_strlit("vol:");
    reveal_strlit("muted");
    let e = Seq::<char>::empty();
    assert(trim_end(e) == e);
    assert(behind_bracket(e) == e);
    assert(trim_start(e) == e);
    assert(tag_in(e) == e);
    assert(lower_all(e).len() == 0);
    assert("muted"@.len() == 5);
    assert("vol:"@.len() == 4);
}

proof fn lemma_mute_tag()
    ensures
        strip_prefix(tag_in(" [MUTED"@), "vol:"@) is None,
        lower_all(tag_in(" [MUTED"@)) == "muted"@,
{
    reveal_strlit(" [MUTED");
    reveal_strlit("MUTED");
    reveal_strlit("vol:");
    reveal_strlit("muted");
    let t = " [MUTED"@;
    let m = "MUTED"@;
    assert(t.last() == 'D');
    assert(trim_end(t) == t);
    assert(t =~= seq![' '] + seq!['['] + m);
    lemma_behind_bracket(seq![' '], m);
    assert(m[0] == 'M' && m.last() == 'D');
    assert(trim_start(m) == m);
    assert(trim_end(m) == m);
    assert(tag_in(t) == m);
    if begins(m, "vol:"@) {
        assert(m.take(4)[0] == "vol:"@[0]);
    }
    assert(lower_all(m) =~= "muted"@);
}

/// The volume in the tags of an entry is the number behind `vol:`, and the device is off
/// if and only if there is a tag `MUTED`.
pub proof fn law_tags_are_read(v: Seq<char>)
    requires
        one_word(v),
        !v.contains('['),
        !v.contains(']'),
    ensures
        tagged_volume(split("vol: "@ + v + seq![']'], ']')) == Some(v),
        !tagged_muted(split("vol: "@ + v + seq![']'], ']')),
        tagged_volume(split("vol: "@ + v + seq![']'] + (" [MUTED"@ + seq![']']), ']')) == Some(v),
        tagged_muted(split("vol: "@ + v + seq![']'] + (" [MUTED"@ + seq![']']), ']')),
{
    let t = "vol: "@ + v;
    let m = " [MUTED"@;
    let e = Seq::<char>::empty();
    assert(!t.contains(']')) by {
        reveal_strlit("vol: ");
        if t.contains(']') {
            let k = choose|k: int| 0 <= k < t.len() && t[k] == ']';
            if k >= 5 {
                assert(v[k - 5] == ']');
            }
        }
    }
    assert(!m.contains(']')) by {
        reveal_strlit(" [MUTED");
    }
    law_first_piece_ends_at_separator(e, e, ']');
    law_first_piece_ends_at_separator(t, e, ']');
    law_first_piece_ends_at_separator(m, e, ']');
    law_first_piece_ends_at_separator(t, m + seq![']'], ']');
    assert(t + seq![']'] + e =~= t + seq![']']);
    assert(m + seq![']'] + e =~= m + seq![']']);
    let one = split(t + seq![']'], ']');
    let two = split(t + seq![']'] + (m + seq![']']), ']');
    let tail = split(m + seq![']'], ']');
    crate::text::lemma_split_len(t + seq![']'], ']');
    crate::text::lemma_split_len(m + seq![']'], ']');
    crate::text::lemma_split_len(t + seq![']'] + (m + seq![']']), ']');
    assert(one =~= seq![t, e]) by {
        assert(one =~= seq![one[0]] + one.skip(1));
    }
    assert(tail =~= seq![m, e]) by {
        assert(tail =~= seq![tail[0]] + tail.skip(1));
    }
    assert(two =~= seq![t, m, e]) by {
        assert(two =~= seq![two[0]] + two.skip(1));
    }
    lemma_volume_tag(v);
    lemma_empty_tag();
    lemma_mute_tag();
    reveal_with_fuel(tagged_volume, 4);
    assert(one.drop_last() =~= seq![t]);
    assert(two.drop_last() =~= seq![t, m]);
    assert(two.drop_last().drop_last() =~= seq![t]);
    assert(one[0] == t && one[1] == e);
    assert(two[1] == m);
}

/// The line of a device says its name and its volume; it is the default one if and only
/// if it is marked with a star, and it is off if and only if it is tagged so.
pub proof fn law_entry_line_is_read(
    marked: bool,
    n: nat,
    name: Seq<char>,
    v: Seq<char>,
    muted: bool,
    kind: AudioDeviceType,
)
    requires
        tidy(name),
        !name.contains('['),
        one_word(v),
        !v.contains('['),
        !v.contains(']'),
    ensures
        entry_in(
            (if marked {
                seq!['*', ' ']
            } else {
                Seq::empty()
            }) + entry_text(
                n,
                name,
                "vol: "@ + v + seq![']'] + (if muted {
                    " [MUTED"@ + seq![']']
                } else {
                    Seq::empty()
                }),
            ),
            kind,
        ) == Some(
            DeviceView {
                name,
                description: name,
                volume: VolumeView::Fraction(v),
                muted,
                is_default: marked,
                device_type: kind,
            },
        ),
{
    let tags = "vol: "@ + v + seq![']'] + (if muted {
        " [MUTED"@ + seq![']']
    } else {
        Seq::empty()
    });
    law_tags_are_read(v);
    assert("vol: "@ + v + seq![']'] + Seq::<char>::empty() =~= "vol: "@ + v + seq![']']);
    let meta = seq![' '] + name + seq![' '] + seq!['['] + tags;
    let entry = entry_text(n, name, tags);
    let bare = (if marked {
        seq!['*', ' ']
    } else {
        Seq::empty()
    }) + entry;
    lemma_entry_cut(n, name, tags);
    lemma_entry_begins(marked, n, entry);
    lemma_tidy_between_blanks(name);
}

/// An entry is cut at its first point and at its first bracket.
proof fn lemma_entry_cut(n: nat, name: Seq<char>, tags: Seq<char>)
    requires
        !name.contains('['),
    ensures
        split_once(entry_text(n, name, tags), '.') == Some(
            (dec(n), seq![' '] + name + seq![' '] + seq!['['] + tags),
        ),
        split_once(seq![' '] + name + seq![' '] + seq!['['] + tags, '[') == Some(
            (seq![' '] + name + seq![' '], tags),
        ),
        split(seq![' '] + name + seq![' '] + seq!['['] + tags, '[')[0] == seq![' '] + name + seq![' '],
{
    let meta = seq![' '] + name + seq![' '] + seq!['['] + tags;
    let number = dec(n);
    lemma_dec_is_number(n);
    assert(!number.contains('.')) by {
        if number.contains('.') {
            let k = choose|k: int| 0 <= k < number.len() && number[k] == '.';
            assert(is_digit(number[k]));
        }
    }
    law_text_is_cut_at_the_first_character(number, meta, '.');
    let inner = seq![' '] + name + seq![' '];
    assert(!inner.contains('[')) by {
        if inner.contains('[') {
            let k = choose|k: int| 0 <= k < inner.len() && inner[k] == '[';
            if 1 <= k < 1 + name.len() {
                assert(name[k - 1] == '[');
            }
        }
    }
    law_text_is_cut_at_the_first_character(inner, tags, '[');
    law_first_piece_ends_at_separator(inner, tags, '[');
}

/// An entry begins with its number, behind its mark.
proof fn lemma_entry_begins(marked: bool, n: nat, entry: Seq<char>)
    requires
        entry.len() > dec(n).len(),
        entry.take(dec(n).len() as int) =~= dec(n),
    ensures
        ({
            let bare = (if marked {
                seq!['*', ' ']
            } else {
                Seq::empty()
            }) + entry;
            &&& trim_start(without_leading(bare, '*')) == entry
            &&& begins(bare, "*"@) <==> marked
            &&& without_branches(bare) == bare
            &&& marked ==> (strip_prefix(bare, "*"@) matches Some(rest)
                && without_blanks_and_points(rest) == entry)
        }),
{
    reveal_strlit("*");
    lemma_dec_is_number(n);
    let number = dec(n);
    assert(is_digit(number[0]));
    assert(entry[0] == number[0]) by {
        assert(entry.take(number.len() as int)[0] == number[0]);
    }
    let bare = (if marked {
        seq!['*', ' ']
    } else {
        Seq::empty()
    }) + entry;
    assert(trim_start(entry) == entry);
    if marked {
        let rest = seq![' '] + entry;
        assert(bare[0] == '*');
        assert(bare.skip(1) =~= rest);
        assert(rest[0] == ' ');
        assert(without_leading(rest, '*') == rest);
        assert(without_leading(bare, '*') == rest);
        assert(rest.skip(1) =~= entry);
        assert(trim_start(rest) == entry);
        assert(bare.take(1) =~= "*"@);
        assert(without_blanks_and_points(entry) == entry);
        assert(without_blanks_and_points(rest) == entry);
        assert(!is_branch('*'));
    } else {
        assert(bare =~= entry);
        if begins(bare, "*"@) {
            assert(bare.take(1)[0] == "*"@[0]);
        }
    }
}

/// The name of the marked sink is what stands between its number and its tags.
pub proof fn law_marked_sink_is_named(n: nat, name: Seq<char>, tags: Seq<char>)
    requires
        tidy(name),
        !name.contains('['),
    ensures
        starred_name(seq!['*', ' '] + entry_text(n, name, tags)) == Some(name),
        starred_name(entry_text(n, name, tags)) is None,
{
    let entry = entry_text(n, name, tags);
    assert(entry.take(dec(n).len() as int) =~= dec(n));
    lemma_entry_cut(n, name, tags);
    lemma_entry_begins(true, n, entry);
    lemma_entry_begins(false, n, entry);
    assert(Seq::<char>::empty() + entry =~= entry);
    lemma_tidy_between_blanks(name);
}

/// The title of a list says which devices follow: those that sound goes to behind
/// `Sinks:`, and those that it comes from behind `Sources:`.
pub proof fn law_titles_open_their_lists(ls: Seq<Seq<char>>, title: Seq<char>)
    ensures
        begins(without_branches(title), "Sinks:"@) ==> devices_in(ls.push(title)) == (
            Some(AudioDeviceType::Sink),
            devices_in(ls).1,
        ),
        begins(without_branches(title), "Sources:"@) ==> devices_in(ls.push(title)) == (
            Some(AudioDeviceType::Source),
            devices_in(ls).1,
        ),
{
    assert(ls.push(title).drop_last() =~= ls);
    reveal_strlit("Sinks:");
    reveal_strlit("Sources:");
    let t = without_branches(title);
    if begins(t, "Sinks:"@) && begins(t, "Sources:"@) {
        assert(t.take(6)[1] == "Sinks:"@[1]);
        assert(t.take(8)[1] == "Sources:"@[1]);
    }
}

/// An entry below a title is a device of that list, behind those before it.
pub proof fn law_entries_are_listed_below_their_title(
    ls: Seq<Seq<char>>,
    marked: bool,
    n: nat,
    name: Seq<char>,
    v: Seq<char>,
    kind: AudioDeviceType,
)
    requires
        devices_in(ls).0 == Some(kind),
        tidy(name),
        !name.contains('['),
        one_word(v),
        !v.contains('['),
        !v.contains(']'),
    ensures
        ({
            let line = (if marked {
                seq!['*', ' ']
            } else {
                Seq::empty()
            }) + entry_text(n, name, "vol: "@ + v + seq![']'] + Seq::empty());
            devices_in(ls.push(line)) == (
                Some(kind),
                devices_in(ls).1.push(
                    DeviceView {
                        name,
                        description: name,
                        volume: VolumeView::Fraction(v),
                        muted: false,
                        is_default: marked,
                        device_type: kind,
                    },
                ),
            )
        }),
{
    let tags = "vol: "@ + v + seq![']'] + Seq::<char>::empty();
    let entry = entry_text(n, name, tags);
    let line = (if marked {
        seq!['*', ' ']
    } else {
        Seq::empty()
    }) + entry;
    assert(ls.push(line).drop_last() =~= ls);
    law_entry_line_is_read(marked, n, name, v, false, kind);
    assert(entry.take(dec(n).len() as int) =~= dec(n));
    lemma_entry_begins(marked, n, entry);
    lemma_dec_is_number(n);
    let number = dec(n);
    assert(is_digit(number[0]));
    assert(entry[0] == number[0]);
    assert(line[0] == (if marked {
        '*'
    } else {
        number[0]
    }));
    assert(trim_start(line) == line);
    reveal_strlit("Sinks:");
    reveal_strlit("Sources:");
    if begins(line, "Sinks:"@) {
        assert(line.take(6)[0] == "Sinks:"@[0]);
    }
    if begins(line, "Sources:"@) {
        assert(line.take(8)[0] == "Sources:"@[0]);
    }
}

// ---------------------------------------------------------------------------
// PulseAudio: the devices
// ---------------------------------------------------------------------------
/// A line with a label of its own and a value behind it.
proof fn lemma_labelled(key: Seq<char>, value: Seq<char>)
    requires
        !key.contains(':'),
        key.len() > 0,
        tidy(value),
    ensures
        split_text(key + ": "@ + value, ": "@) == Some((key, value)),
        without_colons(key) == key,
        trim(value) == value,
{
    assert(split_text(key + ": "@ + value, ": "@) == Some((key, value))) by {
        reveal_strlit(": ");
        assert(": "@[0] == ':');
        law_text_is_cut_at_the_first_mark(key, ": "@, value);
    }
    assert(trim(value) == value) by {
        law_trimmed_text_has_no_white_ends(value);
    }
    assert(key.contains(key[key.len() - 1]));
    assert(key.last() != ':');
}

proof fn lemma_no_volume(t: Seq<char>)
    requires
        t.len() > 0,
        t[0] != 'V',
        t[0] != '*',
    ensures
        strip_prefix(t, "Volume:"@) is None,
        !marks_default(t),
{
    reveal_strlit("Volume:");
    reveal_strlit("*");
    if begins(t, "Volume:"@) {
        assert(t.take(7)[0] == "Volume:"@[0]);
    }
    if begins(t, "*"@) {
        assert(t.take(1)[0] == "*"@[0]);
    }
}

/// The line `Mute: yes` says that a device is off, and `Mute: no` that it is on.
/// Nothing else changes.
pub proof fn law_mute_line_is_read(d: DeviceView)
    ensures
        described(d, "Mute: yes"@) == (DeviceView { muted: true, ..d }),
        described(d, "Mute: no"@) == (DeviceView { muted: false, ..d }),
{
    reveal_strlit("Mute: yes");
    reveal_strlit("Mute: no");
    reveal_strlit("Mute");
    reveal_strlit("Name");
    reveal_strlit("Description");
    reveal_strlit(": ");
    reveal_strlit("yes");
    reveal_strlit("no");
    assert("Mute: yes"@ =~= "Mute"@ + ": "@ + "yes"@);
    assert("Mute: no"@ =~= "Mute"@ + ": "@ + "no"@);
    lemma_labelled("Mute"@, "yes"@);
    lemma_labelled("Mute"@, "no"@);
    lemma_no_volume("Mute: yes"@);
    lemma_no_volume("Mute: no"@);
    assert("Mute"@[0] != "Name"@[0]);
    assert("Mute"@.len() != "Description"@.len());
    assert(lower_all("yes"@) =~= "yes"@);
    assert(lower_all("no"@).len() == 2);
    assert("yes"@.len() == 3);
}

/// The lines with the name and the description give a device its name and its
/// description. Nothing else changes.
pub proof fn law_name_lines_are_read(d: DeviceView, value: Seq<char>)
    requires
        tidy(value),
    ensures
        described(d, "Name: "@ + value) == (DeviceView { name: value, ..d }),
        described(d, "Description: "@ + value) == (DeviceView { description: value, ..d }),
{
    reveal_strlit("Name: ");
    reveal_strlit("Description: ");
    reveal_strlit("Name");
    reveal_strlit("Description");
    reveal_strlit(": ");
    assert("Name: "@ =~= "Name"@ + ": "@);
    assert("Description: "@ =~= "Description"@ + ": "@);
    lemma_labelled("Name"@, value);
    lemma_labelled("Description"@, value);
    lemma_no_volume("Name: "@ + value);
    lemma_no_volume("Description: "@ + value);
    assert("Name"@.len() != "Description"@.len());
}

/// The volume of a device is the first percentage of its volume line: what stands
/// between the first two slashes, without the percent sign.
pub proof fn law_volume_percentage_is_read(
    d: DeviceView,
    channel: Seq<char>,
    v: Seq<char>,
    rest: Seq<char>,
)
    requires
        !channel.contains('/'),
        one_word(v),
        !v.contains('/'),
        is_float(v),
    ensures
        described(
            d,
            "Volume:"@ + (channel + seq!['/'] + ("  "@ + v + "% "@ + seq!['/'] + rest)),
        ) == (DeviceView { volume: VolumeView::Percent(v), ..d }),
{
    let inner = "  "@ + v + "% "@;
    let tail = inner + seq!['/'] + rest;
    let text = channel + seq!['/'] + tail;
    let line = "Volume:"@ + text;
    assert(strip_prefix(line, "Volume:"@) == Some(text)) by {
        assert(line.take("Volume:"@.len() as int) =~= "Volume:"@);
        assert(line.skip("Volume:"@.len() as int) =~= text);
    }
    law_first_piece_ends_at_separator(channel, tail, '/');
    assert(!inner.contains('/')) by {
        reveal_strlit("  ");
        reveal_strlit("% ");
        if inner.contains('/') {
            let k = choose|k: int| 0 <= k < inner.len() && inner[k] == '/';
            if 2 <= k < 2 + v.len() {
                assert(v[k - 2] == '/');
            }
        }
    }
    law_first_piece_ends_at_separator(inner, rest, '/');
    let parts = split(text, '/');
    assert(parts.skip(1)[0] == inner);
    crate::text::lemma_split_len(tail, '/');
    assert(parts[1] == inner);
    lemma_percent(v);
}

proof fn lemma_percent(v: Seq<char>)
    requires
        one_word(v),
    ensures
        strip_suffix(trim("  "@ + v + "% "@), "%"@) == Some(v),
{
    reveal_strlit("  ");
    reveal_strlit("% ");
    reveal_strlit("%");
    let s = "  "@ + v + "% "@;
    let t = v + seq!['%'];
    assert(!is_white(v[0]));
    let a = s.skip(1);
    let b = a.skip(1);
    assert(s[0] == ' ' && a[0] == ' ');
    assert(b =~= t + seq![' ']);
    assert(b[0] == v[0]);
    assert(trim_start(b) == b);
    assert(trim_start(a) == b);
    assert(trim_start(s) == b);
    assert(b.last() == ' ');
    assert(b.drop_last() =~= t);
    assert(t.last() == '%');
    assert(trim_end(t) == t);
    assert(trim_end(b) == t);
    assert(t.skip(t.len() - 1) =~= "%"@);
    assert(t.take(t.len() - 1) =~= v);
}

/// The line `* index: 0` marks the default device, and no line without the star does.
pub proof fn law_star_marks_the_default_device(d: DeviceView, rest: Seq<char>)
    ensures
        described(d, "* index:"@ + rest) == (DeviceView { is_default: true, ..d }),
        rest.len() > 0 && rest[0] != '*' ==> described(d, rest).is_default == d.is_default,
{
    reveal_strlit("* index:");
    reveal_strlit("index:");
    reveal_strlit("*");
    reveal_strlit("Volume:");
    let t = "* index:"@ + rest;
    assert(t[0] == '*');
    if begins(t, "Volume:"@) {
        assert(t.take(7)[0] == "Volume:"@[0]);
    }
    assert(t.take(1) =~= "*"@);
    assert(t.subrange(2, 8) =~= "index:"@);
    assert(crate::text::occurs_at(t, "index:"@, 2));
    if rest.len() > 0 && rest[0] != '*' {
        if begins(rest, "*"@) {
            assert(rest.take(1)[0] == "*"@[0]);
        }
    }
}

/// The line `Default Sink: name` names the default sink.
pub proof fn law_default_sink_line_is_read(name: Seq<char>)
    requires
        tidy(name),
    ensures
        sink_in_line("Default Sink: "@ + name) == Some(name),
{
    let line = "Default Sink: "@ + name;
    let value = seq![' '] + name;
    assert(line =~= "Default Sink"@ + seq![':'] + value) by {
        reveal_strlit("Default Sink: ");
        reveal_strlit("Default Sink");
    }
    assert(!"Default Sink"@.contains(':')) by {
        reveal_strlit("Default Sink");
    }
    law_text_is_cut_at_the_first_character("Default Sink"@, value, ':');
    assert(trim("Default Sink"@) == "Default Sink"@) by {
        reveal_strlit("Default Sink");
        lemma_tidy_between_blanks("Default Sink"@);
    }
    lemma_tidy_between_blanks(name);
}

/// The state is that of the device with the name of the default sink.
pub proof fn law_device_is_found_by_its_name(ds: Seq<DeviceView>, name: Seq<char>)
    ensures
        match device_called(ds, name) {
            Some(d) => ds.contains(d) && d.name == name,
            None => forall|i: int| 0 <= i < ds.len() ==> (#[trigger] ds[i]).name != name,
        },
    decreases ds.len(),
{
    if ds.len() > 0 && ds[0].name != name {
        let rest = ds.skip(1);
        law_device_is_found_by_its_name(rest, name);
        match device_called(rest, name) {
            Some(d) => {
                let k = choose|k: int| 0 <= k < rest.len() && rest[k] == d;
                assert(ds[k + 1] == d);
            },
            None => {
                assert forall|i: int| 0 <= i < ds.len() implies (#[trigger] ds[i]).name != name by {
                    if i > 0 {
                        assert(rest[i - 1] == ds[i]);
                    }
                }
            },
        }
    } else if ds.len() > 0 {
        assert(ds[0] == device_called(ds, name)->0);
    }
}

/// Devices with a name are listed, others are not.
pub proof fn law_named_devices_are_listed(ds: Seq<DeviceView>, d: DeviceView)
    ensures
        with_device(ds, Some(d)) == (if d.name.len() > 0 {
            ds.push(d)
        } else {
            ds
        }),
        with_device(ds, None) == ds,
{
}

// ---------------------------------------------------------------------------
// Channels
// ---------------------------------------------------------------------------
/// The desktop's own service goes first where it is there, and the tool serves where
/// it is not.
pub proof fn law_service_goes_before_the_tool(r: RouterView, service: Seq<char>)
    requires
        r.de_wrapper == Some(service),
    ensures
        r.route(true) == ChannelView::DeWrapper(service),
        r.route(false) == r.fallback,
        ChannelView::PulseAudioCli.as_tool() == ChannelView::PulseAudioCli,
        ChannelView::PipeWireCli.as_tool() == ChannelView::PipeWireCli,
        ChannelView::DeWrapper(service).as_tool() == ChannelView::PipeWireCli,
{
}

/// The first line of a description ends the one before and begins a new device, which
/// the lines behind it describe.
pub proof fn law_headers_begin_devices(ls: Seq<Seq<char>>, line: Seq<char>, kind: AudioDeviceType)
    ensures
        ({
            let before = devices_so_far(ls, kind);
            let after = devices_so_far(ls.push(line), kind);
            let title = match kind {
                AudioDeviceType::Sink => "Sink #"@,
                AudioDeviceType::Source => "Source #"@,
            };
            &&& begins(trim(line), title) ==> (after.1 matches Some(d) && d.name.len() == 0
                && !d.muted && !d.is_default && d.volume == VolumeView::Unknown && d.device_type
                == kind)
            &&& begins(trim(line), title) ==> (before.1 matches Some(d) ==> (d.name.len() > 0
                ==> after.0 == before.0.push(d)))
            &&& !begins(trim(line), title) ==> after.0 == before.0
            &&& !begins(trim(line), title) ==> (before.1 matches Some(d) ==> after.1 == Some(
                described(d, trim(line)),
            ))
        }),
{
    assert(ls.push(line).drop_last() =~= ls);
}

// ---------------------------------------------------------------------------
// PulseAudio: the state
// ---------------------------------------------------------------------------
proof fn lemma_first_label(ls: Seq<Seq<char>>, i: int, name: Seq<char>)
    requires
        0 <= i < ls.len(),
        ls[i] == "Default Sink: "@ + name,
        forall|k: int| 0 <= k < i ==> !begins(#[trigger] ls[k], "Default Sink: "@),
    ensures
        labelled_sink(ls) == Some(name),
    decreases i,
{
    if i > 0 {
        let rest = ls.skip(1);
        assert(!begins(ls[0], "Default Sink: "@));
        assert(rest[i - 1] == ls[i]);
        assert forall|k: int| 0 <= k < i - 1 implies !begins(
            #[trigger] rest[k],
            "Default Sink: "@,
        ) by {
            assert(rest[k] == ls[k + 1]);
        }
        lemma_first_label(rest, i - 1, name);
    } else {
        let label = "Default Sink: "@;
        assert(ls[0].take(label.len() as int) =~= label);
        assert(ls[0].skip(label.len() as int) =~= name);
    }
}

/// The state is that of the sink that the server calls the default one.
pub proof fn law_state_is_that_of_the_default_sink(
    info: Seq<char>,
    sinks: Seq<char>,
    i: int,
    d: DeviceView,
)
    requires
        0 <= i < lines(info).len(),
        lines(info)[i] == "Default Sink: "@ + d.name,
        forall|k: int| 0 <= k < i ==> !begins(#[trigger] lines(info)[k], "Default Sink: "@),
        tidy(d.name),
        device_called(pulse_devices(sinks, AudioDeviceType::Sink), d.name) == Some(d),
    ensures
        pulse_state(info, sinks).volume == d.volume,
        pulse_state(info, sinks).muted == d.muted,
        pulse_state(info, sinks).default_sink == d.name,
{
    lemma_first_label(lines(info), i, d.name);
    lemma_tidy_between_blanks(d.name);
}

/// Where no listed sink has the name of the default one, nothing is known but the name.
pub proof fn law_unlisted_default_sink_is_only_named(
    info: Seq<char>,
    sinks: Seq<char>,
    name: Seq<char>,
)
    requires
        lines(info).len() > 0,
        lines(info)[0] == "Default Sink: "@ + name,
        tidy(name),
        device_called(pulse_devices(sinks, AudioDeviceType::Sink), name) is None,
    ensures
        pulse_state(info, sinks).volume == VolumeView::Unknown,
        !pulse_state(info, sinks).muted,
        pulse_state(info, sinks).default_sink == name,
{
    lemma_first_label(lines(info), 0, name);
    lemma_tidy_between_blanks(name);
    law_default_sink_line_is_read(name);
}

/// What a tool printed is taken as it is, and a failure is told with the tool, what was
/// asked of it and what it said.
pub proof fn law_tool_outcomes_are_told(
    tool: Seq<char>,
    verb: Seq<char>,
    e: String,
    errors: Vec<u8>,
    bytes: Vec<u8>,
)
    ensures
        tool_text(tool, verb, ToolOutcome::Output(bytes)) == Ok::<Seq<char>, ErrorView>(
            lossy_text(bytes@),
        ),
        tool_text(tool, verb, ToolOutcome::NotStarted(e)) == Err::<Seq<char>, ErrorView>(
            ErrorView::DBus(tool + " spawn: "@ + e@),
        ),
        tool_text(tool, verb, ToolOutcome::Failed(errors)) == Err::<Seq<char>, ErrorView>(
            ErrorView::DBus(tool + " "@ + verb + " failed: "@ + trim(lossy_text(errors@))),
        ),
{
}

/// A text with white space is no single word.
pub proof fn law_white_space_parts_words(s: Seq<char>)
    ensures
        s.len() > 0 ==> (has_white(s) <==> !one_word(s)),
{
}

/// The title of the sources, and any other line that is no entry and ends with a colon,
/// ends the list of sinks; an entry does not.
pub proof fn law_titles_end_the_sinks(line: Seq<char>)
    ensures
        begins(trim_start(line), "Sources:"@) ==> ends_sinks(line),
        ({
            let t = trim_start(line);
            trim(t).len() > 0 && trim(t).last() == ':' && t.len() > 0 && t[0] != '*' && t[0] != '│'
                && !is_digit(t[0]) ==> ends_sinks(line)
        }),
        ({
            let t = trim_start(line);
            t.len() > 0 && (t[0] == '*' || t[0] == '│' || is_digit(t[0])) ==> !ends_sinks(line)
        }),
        trim(trim_start(line)).len() > 0 && trim(trim_start(line)).last() != ':' && !begins(
            trim_start(line),
            "Sources:"@,
        ) ==> !ends_sinks(line),
{
    reveal_strlit("Sources:");
    let t = trim_start(line);
    if begins(t, "Sources:"@) {
        assert(t.take(8)[0] == t[0]);
    }
}

/// Blanks and branches in front of a line make no difference, and what follows them stays.
pub proof fn law_branches_are_dropped(front: Seq<char>, rest: Seq<char>)
    requires
        forall|i: int|
            0 <= i < front.len() ==> is_white(#[trigger] front[i]) || front[i] == '│' || front[i]
                == '├' || front[i] == '└' || front[i] == '─',
        rest.len() > 0 ==> !is_white(rest[0]) && rest[0] != '│' && rest[0] != '├' && rest[0] != '└'
            && rest[0] != '─',
    ensures
        without_branches(front + rest) == rest,
    decreases front.len(),
{
    if front.len() > 0 {
        assert((front + rest).skip(1) =~= front.skip(1) + rest);
        assert(is_white((front + rest)[0]) || is_branch((front + rest)[0])) by {
            assert((front + rest)[0] == front[0]);
        }
        assert forall|i: int| 0 <= i < front.skip(1).len() implies is_white(
            #[trigger] front.skip(1)[i],
        ) || front.skip(1)[i] == '│' || front.skip(1)[i] == '├' || front.skip(1)[i] == '└'
            || front.skip(1)[i] == '─' by {
            assert(front.skip(1)[i] == front[i + 1]);
        }
        law_branches_are_dropped(front.skip(1), rest);
    } else {
        assert(front + rest =~= rest);
    }
}

/// The list of sinks is looked for from its title on, whatever stands above it.
pub proof fn law_lines_above_the_sinks_do_not_count(above: Seq<Seq<char>>, ls: Seq<Seq<char>>)
    requires
        forall|i: int| 0 <= i < above.len() ==> !contains(#[trigger] above[i], "Sinks:"@),
    ensures
        pipewire_default(above + ls) == pipewire_default(ls),
    decreases above.len(),
{
    if above.len() > 0 {
        assert(!contains(above[0], "Sinks:"@));
        assert((above + ls)[0] == above[0]);
        assert((above + ls).skip(1) =~= above.skip(1) + ls);
        assert forall|i: int| 0 <= i < above.skip(1).len() implies !contains(
            #[trigger] above.skip(1)[i],
            "Sinks:"@,
        ) by {
            assert(above.skip(1)[i] == above[i + 1]);
        }
        law_lines_above_the_sinks_do_not_count(above.skip(1), ls);
    } else {
        assert(above + ls =~= ls);
    }
}

/// The report names the channels that work.
pub proof fn law_report_names_the_channels(pactl: bool, dbus: Option<bool>)
    ensures
        pactl && dbus == Some(true) ==> report((ChannelsView { pactl, dbus }))
            == "pactl-cli+org.pulseaudio.Server"@,
        pactl && dbus != Some(true) ==> report((ChannelsView { pactl, dbus })) == "pactl-cli"@,
        !pactl && dbus == Some(true) ==> report((ChannelsView { pactl, dbus }))
            == "org.pulseaudio.Server"@,
        !pactl && dbus != Some(true) ==> report((ChannelsView { pactl, dbus })) == "unavailable"@,
{
}

/// A line that is empty, or has neither a branch nor a mark nor a number, stands in no
/// list; an entry does.
pub proof fn law_entries_stand_in_lists(t: Seq<char>)
    ensures
        t.len() == 0 ==> outside_list(t),
        t.len() > 0 && is_digit(t[0]) ==> !outside_list(t),
        t.len() > 0 && t[0] == '*' ==> !outside_list(t),
        t.len() > 0 && contains(t, "│"@) ==> !outside_list(t),
        t.len() > 0 && !is_digit(t[0]) && t[0] != '*' && !contains(t, "│"@) ==> outside_list(t),
{
    reveal_strlit("*");
    if t.len() > 0 {
        assert(t.take(1) =~= seq![t[0]]);
        assert("*"@ =~= seq!['*']);
        if begins(t, "*"@) {
            assert(t.take(1)[0] == '*');
        }
    }
}

} // verus!
