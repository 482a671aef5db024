//! Filling in the placeholders of a script.
//!
//! A layout is a template taken apart at its placeholders. Filling in a template
//! puts each argument in the place of its placeholder and changes nothing else,
//! as long as no argument holds a percent sign itself.

use vstd::prelude::*;

use crate::json::Json;
use crate::kwin::error::KWinErrorView;
use crate::kwin::scripts::{argument, filled, placeholder};
use crate::text::{begins, contains, occurs_at, replace};

verus! {

/// A text, and then placeholders, each with its key and the text behind it.
#[verifier::ext_equal]
pub struct Layout {
    pub first: Seq<char>,
    pub rest: Seq<(Seq<char>, Seq<char>)>,
}

/// A text without percent signs.
pub open spec fn plain(t: Seq<char>) -> bool {
    !t.contains('%')
}

/// A key is made of upper-case letters.
pub open spec fn is_key(k: Seq<char>) -> bool {
    k.len() > 0 && forall|i: int| 0 <= i < k.len() ==> 'A' <= #[trigger] k[i] <= 'Z'
}

/// A text that holds something else than upper-case letters, and so is no key.
pub open spec fn apart(t: Seq<char>) -> bool {
    exists|i: int| 0 <= i < t.len() && !('A' <= #[trigger] t[i] <= 'Z')
}

/// A layout whose first text is `first`.
pub open spec fn laid(first: Seq<char>, rest: Seq<(Seq<char>, Seq<char>)>) -> Layout {
    Layout { first, rest }
}

impl Layout {
    /// What follows the first placeholder.
    pub open spec fn tail(self) -> Layout {
        laid(self.rest[0].1, self.rest.skip(1))
    }

    /// The texts are plain, the keys are keys, and no text between two
    /// placeholders could be taken for a key.
    pub open spec fn sound(self) -> bool
        decreases self.rest.len(),
    {
        plain(self.first) && (self.rest.len() > 0 ==> {
            &&& is_key(self.rest[0].0)
            &&& self.rest.len() > 1 ==> apart(self.rest[0].1)
            &&& self.tail().sound()
        })
    }

    /// The template.
    pub open spec fn template(self) -> Seq<char>
        decreases self.rest.len(),
    {
        if self.rest.len() == 0 {
            self.first
        } else {
            self.first + placeholder(self.rest[0].0) + self.tail().template()
        }
    }

    /// The template has a placeholder with this key.
    pub open spec fn has(self, key: Seq<char>) -> bool {
        exists|i: int| 0 <= i < self.rest.len() && (#[trigger] self.rest[i]).0 == key
    }

    /// The layout with a text in place of a placeholder.
    pub open spec fn put(self, key: Seq<char>, by: Seq<char>) -> Layout
        decreases self.rest.len(),
    {
        if self.rest.len() == 0 {
            self
        } else {
            let t = self.tail().put(key, by);
            if self.rest[0].0 == key {
                laid(self.first + by + t.first, t.rest)
            } else {
                laid(self.first, seq![(self.rest[0].0, t.first)] + t.rest)
            }
        }
    }

    /// The script: the template with the arguments in place of the placeholders.
    pub open spec fn script(self, args: Seq<(&str, Json)>) -> Seq<char>
        decreases self.rest.len(),
    {
        if self.rest.len() == 0 {
            self.first
        } else {
            self.first + value(args, self.rest[0].0) + self.tail().script(args)
        }
    }
}

/// What the argument called `key` becomes in a script.
pub open spec fn value(args: Seq<(&str, Json)>, key: Seq<char>) -> Seq<char>
    decreases args.len(),
{
    if args.len() == 0 {
        Seq::empty()
    } else if args[0].0@ == key {
        argument(key, args[0].1)->Ok_0
    } else {
        value(args.skip(1), key)
    }
}

/// Each argument can be written without a percent sign, and none comes twice.
pub open spec fn writable(args: Seq<(&str, Json)>) -> bool {
    &&& forall|i: int|
        0 <= i < args.len() ==> {
            &&& argument((#[trigger] args[i]).0@, args[i].1) matches Ok(by)
            &&& plain(by)
        }
    &&& forall|i: int, j: int|
        0 <= i < j < args.len() ==> (#[trigger] args[i]).0@ != (#[trigger] args[j]).0@
}

/// There is an argument called `key`.
pub open spec fn given(args: Seq<(&str, Json)>, key: Seq<char>) -> bool {
    exists|i: int| 0 <= i < args.len() && (#[trigger] args[i]).0@ == key
}

/// A text in two pieces is plain if both are.
pub broadcast proof fn lemma_plain_add(a: Seq<char>, b: Seq<char>)
    ensures
        #[trigger] plain(a + b) == (plain(a) && plain(b)),
{
    if !plain(a) {
        let i = choose|i: int| 0 <= i < a.len() && a[i] == '%';
        assert((a + b)[i] == '%');
    }
    if !plain(b) {
        let i = choose|i: int| 0 <= i < b.len() && b[i] == '%';
        assert((a + b)[a.len() + i] == '%');
    }
    if !plain(a + b) {
        let i = choose|i: int| 0 <= i < (a + b).len() && (a + b)[i] == '%';
        if i < a.len() {
            assert(a[i] == '%');
        } else {
            assert(b[i - a.len()] == '%');
        }
    }
}

/// How a placeholder is spelled.
proof fn lemma_placeholder(key: Seq<char>)
    ensures
        placeholder(key).len() == key.len() + 2,
        placeholder(key)[0] == '%',
        placeholder(key)[key.len() as int + 1] == '%',
        forall|i: int| 0 <= i < key.len() ==> #[trigger] placeholder(key)[i + 1] == key[i],
        placeholder(key) == seq!['%'] + key + seq!['%'],
{
    reveal_strlit("%");
    assert(placeholder(key) =~= seq!['%'] + key + seq!['%']);
}

/// Nothing is replaced in a plain text in front of others.
proof fn lemma_replace_behind(first: Seq<char>, s: Seq<char>, key: Seq<char>, by: Seq<char>)
    requires
        plain(first),
    ensures
        replace(first + s, placeholder(key), by) == first + replace(s, placeholder(key), by),
    decreases first.len(),
{
    let p = placeholder(key);
    lemma_placeholder(key);
    if first.len() == 0 {
        assert(first + s =~= s);
        assert(first + replace(s, p, by) =~= replace(s, p, by));
    } else {
        let all = first + s;
        assert(first[0] != '%') by {
            assert(first.contains(first[0]));
        }
        assert(plain(first.skip(1))) by {
            assert(first =~= seq![first[0]] + first.skip(1));
            lemma_plain_add(seq![first[0]], first.skip(1));
        }
        lemma_replace_behind(first.skip(1), s, key, by);
        assert(all.skip(1) =~= first.skip(1) + s);
        if all.len() < p.len() {
            assert(replace(s, p, by) == s);
        } else {
            assert(!begins(all, p)) by {
                assert(all.take(p.len() as int)[0] == first[0]);
            }
            assert(seq![all[0]] + (first.skip(1) + replace(s, p, by)) =~= first + replace(
                s,
                p,
                by,
            ));
        }
    }
}

/// A placeholder does not begin where another one does.
proof fn lemma_other_placeholder(k: Seq<char>, s: Seq<char>, key: Seq<char>)
    requires
        is_key(k),
        is_key(key),
        k != key,
    ensures
        !begins(placeholder(k) + s, placeholder(key)),
{
    let all = placeholder(k) + s;
    let p = placeholder(key);
    lemma_placeholder(k);
    lemma_placeholder(key);
    if begins(all, p) {
        assert(forall|i: int| 0 <= i < p.len() ==> all.take(p.len() as int)[i] == #[trigger] p[i]);
        if key.len() == k.len() {
            assert forall|i: int| 0 <= i < key.len() implies key[i] == k[i] by {
                assert(p[i + 1] == all[i + 1]);
                assert(placeholder(k)[i + 1] == all[i + 1]);
            }
            assert(key =~= k);
        } else if key.len() < k.len() {
            let n = key.len() as int;
            assert(p[n + 1] == all[n + 1]);
            assert(placeholder(k)[n + 1] == k[n]);
            assert('A' <= k[n] <= 'Z');
        } else {
            let n = k.len() as int;
            assert(p[n + 1] == all[n + 1]);
            assert(p[n + 1] == key[n]);
            assert('A' <= key[n] <= 'Z');
        }
    }
}

/// A placeholder does not begin where another one ends.
proof fn lemma_end_of_placeholder(l: Layout, key: Seq<char>)
    requires
        l.sound(),
        l.rest.len() > 0 ==> apart(l.first),
        is_key(key),
    ensures
        !begins(seq!['%'] + l.template(), placeholder(key)),
{
    let all = seq!['%'] + l.template();
    let p = placeholder(key);
    lemma_placeholder(key);
    if begins(all, p) {
        assert(forall|i: int| 0 <= i < p.len() ==> all.take(p.len() as int)[i] == #[trigger] p[i]);
        let t = l.first;
        let n = key.len() as int;
        if l.rest.len() == 0 {
            assert(p[n + 1] == all[n + 1]);
            assert(t[n] == '%');
            assert(t.contains('%'));
        } else {
            lemma_placeholder(l.rest[0].0);
            let m = t.len() as int;
            assert(all[m + 1] == placeholder(l.rest[0].0)[0]);
            if n < m {
                assert(p[n + 1] == all[n + 1]);
                assert(t[n] == '%');
                assert(t.contains('%'));
            } else if n == m {
                let i = choose|i: int| 0 <= i < t.len() && !('A' <= #[trigger] t[i] <= 'Z');
                assert(p[i + 1] == all[i + 1]);
                assert(key[i] == t[i]);
            } else {
                assert(p[m + 1] == all[m + 1]);
                assert(p[m + 1] == key[m]);
                assert('A' <= key[m] <= 'Z');
            }
        }
    }
}

/// Text in front of a layout stands in front of its template.
proof fn lemma_template_behind(a: Seq<char>, l: Layout)
    ensures
        laid(a + l.first, l.rest).template() == a + l.template(),
{
    let longer = laid(a + l.first, l.rest);
    if l.rest.len() > 0 {
        assert(longer.tail() == l.tail());
        let p = placeholder(l.rest[0].0);
        assert(a + l.first + p + l.tail().template() =~= a + (l.first + p + l.tail().template()));
    }
}

/// The first text of a layout still comes first when something was put in.
proof fn lemma_put_first(l: Layout, key: Seq<char>, by: Seq<char>)
    ensures
        l.put(key, by).first.len() >= l.first.len(),
        l.put(key, by).first.take(l.first.len() as int) == l.first,
        l.put(key, by).rest.len() <= l.rest.len(),
    decreases l.rest.len(),
{
    if l.rest.len() == 0 {
        assert(l.first.take(l.first.len() as int) =~= l.first);
    } else {
        let t = l.tail().put(key, by);
        lemma_put_first(l.tail(), key, by);
        if l.rest[0].0 == key {
            assert((l.first + by + t.first).take(l.first.len() as int) =~= l.first);
        } else {
            assert(l.first.take(l.first.len() as int) =~= l.first);
        }
    }
}

/// Putting a plain text in keeps a layout sound.
proof fn lemma_put_sound(l: Layout, key: Seq<char>, by: Seq<char>)
    requires
        l.sound(),
        plain(by),
    ensures
        l.put(key, by).sound(),
    decreases l.rest.len(),
{
    if l.rest.len() > 0 {
        let t = l.tail().put(key, by);
        lemma_put_sound(l.tail(), key, by);
        lemma_put_first(l.tail(), key, by);
        if l.rest[0].0 == key {
            lemma_plain_add(l.first, by);
            lemma_plain_add(l.first + by, t.first);
            let r = laid(l.first + by + t.first, t.rest);
            if t.rest.len() > 0 {
                assert(r.tail() == t.tail());
            }
            assert(r.sound());
        } else {
            let r = laid(l.first, seq![(l.rest[0].0, t.first)] + t.rest);
            assert(r.rest.skip(1) =~= t.rest);
            assert(r.tail() == t);
            if r.rest.len() > 1 {
                let s = l.rest[0].1;
                let i = choose|i: int| 0 <= i < s.len() && !('A' <= #[trigger] s[i] <= 'Z');
                assert(t.first.take(s.len() as int)[i] == t.first[i]);
                assert(apart(t.first));
            }
            assert(r.sound());
        }
    }
}

/// Replacing a placeholder in a template is putting a text into its layout.
proof fn lemma_replace_is_put(l: Layout, key: Seq<char>, by: Seq<char>)
    requires
        l.sound(),
        is_key(key),
    ensures
        replace(l.template(), placeholder(key), by) == l.put(key, by).template(),
    decreases l.rest.len(),
{
    let p = placeholder(key);
    lemma_placeholder(key);
    if l.rest.len() == 0 {
        lemma_replace_behind(l.first, Seq::empty(), key, by);
        assert(l.first + Seq::<char>::empty() =~= l.first);
    } else {
        let k = l.rest[0].0;
        let tail = l.tail();
        let t = tail.put(key, by);
        let text = tail.template();
        lemma_replace_is_put(tail, key, by);
        lemma_placeholder(k);
        assert(l.template() =~= l.first + (placeholder(k) + text));
        lemma_replace_behind(l.first, placeholder(k) + text, key, by);
        if k == key {
            let all = p + text;
            assert(begins(all, p)) by {
                assert(all.take(p.len() as int) =~= p);
            }
            assert(all.skip(p.len() as int) =~= text);
            assert(replace(all, p, by) == by + t.template());
            lemma_template_behind(l.first + by, t);
            assert(l.first + (by + t.template()) =~= l.first + by + t.template());
        } else {
            let all = placeholder(k) + text;
            let inner = k + (seq!['%'] + text);
            let end = seq!['%'] + text;
            assert(all =~= seq!['%'] + inner);
            lemma_other_placeholder(k, text, key);
            assert(all.skip(1) =~= inner);
            assert(all[0] == '%');
            assert(plain(k)) by {
                assert forall|i: int| 0 <= i < k.len() implies k[i] != '%' by {
                    assert('A' <= k[i] <= 'Z');
                }
            }
            lemma_replace_behind(k, end, key, by);
            lemma_end_of_placeholder(tail, key);
            assert(end.skip(1) =~= text);
            assert(end[0] == '%');
            assert(replace(end, p, by) == seq!['%'] + replace(text, p, by)) by {
                if end.len() < p.len() {
                    assert(replace(text, p, by) == text);
                }
            }
            assert(replace(all, p, by) == seq!['%'] + replace(inner, p, by)) by {
                if all.len() < p.len() {
                    assert(replace(inner, p, by) == inner);
                }
            }
            assert(replace(all, p, by) =~= placeholder(k) + t.template());
            let r = laid(l.first, seq![(k, t.first)] + t.rest);
            assert(r.rest.skip(1) =~= t.rest);
            assert(r.tail() == t);
            assert(l.first + (placeholder(k) + t.template()) =~= l.first + placeholder(k)
                + t.template());
        }
    }
}

/// A placeholder of a layout stands in its template.
proof fn lemma_has_contains(l: Layout, key: Seq<char>)
    requires
        l.has(key),
    ensures
        contains(l.template(), placeholder(key)),
    decreases l.rest.len(),
{
    let i = choose|i: int| 0 <= i < l.rest.len() && (#[trigger] l.rest[i]).0 == key;
    let p = placeholder(key);
    let front = l.first + placeholder(l.rest[0].0);
    let text = l.tail().template();
    assert(l.template() == front + text);
    if i == 0 {
        let n = l.first.len() as int;
        assert((front + text).subrange(n, n + p.len()) =~= p);
        assert(occurs_at(front + text, p, n));
    } else {
        assert(l.tail().rest[i - 1] == l.rest[i]);
        lemma_has_contains(l.tail(), key);
        let j = choose|j: int| occurs_at(text, p, j);
        let n = front.len() + j;
        assert((front + text).subrange(n, n + p.len()) =~= text.subrange(j, j + p.len()));
        assert(occurs_at(front + text, p, n));
    }
}

/// Which placeholders are left when one was filled in.
proof fn lemma_put_has(l: Layout, key: Seq<char>, by: Seq<char>, other: Seq<char>)
    ensures
        l.put(key, by).has(other) <==> l.has(other) && other != key,
    decreases l.rest.len(),
{
    if l.rest.len() > 0 {
        let t = l.tail().put(key, by);
        lemma_put_has(l.tail(), key, by, other);
        let r = l.put(key, by);
        if l.tail().has(other) {
            let i = choose|i: int|
                0 <= i < l.tail().rest.len() && (#[trigger] l.tail().rest[i]).0 == other;
            assert(l.rest[i + 1].0 == other);
        }
        if l.has(other) && !l.tail().has(other) {
            let i = choose|i: int| 0 <= i < l.rest.len() && (#[trigger] l.rest[i]).0 == other;
            if i > 0 {
                assert(l.tail().rest[i - 1].0 == other);
            }
            assert(l.rest[0].0 == other);
        }
        if l.rest[0].0 != key {
            if t.has(other) {
                let i = choose|i: int| 0 <= i < t.rest.len() && (#[trigger] t.rest[i]).0 == other;
                assert(r.rest[i + 1].0 == other);
            }
            if l.rest[0].0 == other {
                assert(r.rest[0].0 == other);
            }
            if r.has(other) {
                let i = choose|i: int| 0 <= i < r.rest.len() && (#[trigger] r.rest[i]).0 == other;
                if i > 0 {
                    assert(t.rest[i - 1].0 == other);
                }
            }
        } else {
            assert(r.rest == t.rest);
            assert(r.has(other) == t.has(other));
        }
    }
}

/// The script of a layout with one argument put in already.
proof fn lemma_put_script(l: Layout, args: Seq<(&str, Json)>)
    requires
        args.len() > 0,
        argument(args[0].0@, args[0].1) is Ok,
    ensures
        l.put(args[0].0@, argument(args[0].0@, args[0].1)->Ok_0).script(args.skip(1)) == l.script(
            args,
        ),
    decreases l.rest.len(),
{
    let key = args[0].0@;
    let by = argument(key, args[0].1)->Ok_0;
    if l.rest.len() > 0 {
        let t = l.tail().put(key, by);
        lemma_put_script(l.tail(), args);
        if l.rest[0].0 == key {
            let r = laid(l.first + by + t.first, t.rest);
            if t.rest.len() > 0 {
                assert(r.tail() == t.tail());
                let v = value(args.skip(1), t.rest[0].0);
                let s = t.tail().script(args.skip(1));
                assert(l.first + by + t.first + v + s =~= l.first + by + (t.first + v + s));
            }
        } else {
            let r = laid(l.first, seq![(l.rest[0].0, t.first)] + t.rest);
            assert(r.rest.skip(1) =~= t.rest);
            assert(r.tail() == t);
        }
    }
}

/// Filling in a template puts each argument in the place of its placeholder and
/// leaves everything else as it is, as long as each placeholder has its argument,
/// each argument its placeholder, and no argument holds a percent sign.
pub proof fn law_filling_in_puts_arguments_in_place(l: Layout, args: Seq<(&str, Json)>)
    requires
        l.sound(),
        writable(args),
        forall|k: Seq<char>| #[trigger] l.has(k) <==> given(args, k),
    ensures
        filled(l.template(), args) == Ok::<Seq<char>, KWinErrorView>(l.script(args)),
    decreases args.len(),
{
    if args.len() == 0 {
        if l.rest.len() > 0 {
            assert(l.rest[0].0 == l.rest[0].0);
            assert(l.has(l.rest[0].0));
        }
        assert(filled(l.template(), args) == Ok::<Seq<char>, KWinErrorView>(l.first));
    } else {
        let key = args[0].0@;
        let by = argument(key, args[0].1)->Ok_0;
        let more = args.skip(1);
        assert(given(args, key));
        assert(l.has(key));
        assert(is_key(key)) by {
            lemma_slots_are_keys(l, key);
        }
        assert(plain(by));
        lemma_has_contains(l, key);
        lemma_replace_is_put(l, key, by);
        lemma_put_sound(l, key, by);
        lemma_put_script(l, args);
        let next = l.put(key, by);
        assert(forall|i: int| 0 <= i < more.len() ==> #[trigger] more[i] == args[i + 1]);
        assert forall|k: Seq<char>| #[trigger] next.has(k) <==> given(more, k) by {
            lemma_put_has(l, key, by, k);
            assert(l.has(k) <==> given(args, k));
            if given(more, k) {
                let i = choose|i: int| 0 <= i < more.len() && (#[trigger] more[i]).0@ == k;
                assert(args[i + 1].0@ == k);
                assert(args[0].0@ != args[i + 1].0@);
            }
            if given(args, k) && k != key {
                let i = choose|i: int| 0 <= i < args.len() && (#[trigger] args[i]).0@ == k;
                assert(more[i - 1].0@ == k);
            }
        }
        assert(writable(more)) by {
            assert forall|i: int, j: int| 0 <= i < j < more.len() implies (#[trigger] more[i]).0@
                != (#[trigger] more[j]).0@ by {
                assert(args[i + 1].0@ != args[j + 1].0@);
            }
            assert forall|i: int| 0 <= i < more.len() implies {
                &&& argument((#[trigger] more[i]).0@, more[i].1) matches Ok(b)
                &&& plain(b)
            } by {
                assert(argument(args[i + 1].0@, args[i + 1].1) is Ok);
            }
        }
        law_filling_in_puts_arguments_in_place(next, more);
    }
}

/// The keys of a sound layout are keys.
proof fn lemma_slots_are_keys(l: Layout, key: Seq<char>)
    requires
        l.sound(),
        l.has(key),
    ensures
        is_key(key),
    decreases l.rest.len(),
{
    let i = choose|i: int| 0 <= i < l.rest.len() && (#[trigger] l.rest[i]).0 == key;
    if i > 0 {
        assert(l.tail().rest[i - 1].0 == key);
        lemma_slots_are_keys(l.tail(), key);
    }
}

/// Whatever stands for a placeholder is found in the script as it is.
pub proof fn law_argument_is_in_the_script(l: Layout, args: Seq<(&str, Json)>, key: Seq<char>)
    requires
        l.has(key),
    ensures
        contains(l.script(args), value(args, key)),
    decreases l.rest.len(),
{
    let i = choose|i: int| 0 <= i < l.rest.len() && (#[trigger] l.rest[i]).0 == key;
    let v = value(args, key);
    let front = l.first + value(args, l.rest[0].0);
    let text = l.tail().script(args);
    assert(l.script(args) == front + text);
    if i == 0 {
        let n = l.first.len() as int;
        assert((front + text).subrange(n, n + v.len()) =~= v);
        assert(occurs_at(front + text, v, n));
    } else {
        assert(l.tail().rest[i - 1] == l.rest[i]);
        law_argument_is_in_the_script(l.tail(), args, key);
        let j = choose|j: int| occurs_at(text, v, j);
        let n = front.len() + j;
        assert((front + text).subrange(n, n + v.len()) =~= text.subrange(j, j + v.len()));
        assert(occurs_at(front + text, v, n));
    }
}

} // verus!
