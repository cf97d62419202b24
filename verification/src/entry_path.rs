//! Where an archive entry may be written.
//!
//! An entry name is read as a relative path. On every host it is split at `/`
//! and at `\`, empty and `.` components are dropped, and `..` removes the
//! component before it. A name is refused when it is absolute, when it holds
//! NUL, when it holds `:` on a host where `\` separates (there `:` marks a
//! drive or a stream), or when a `..` would climb above the directory the
//! archive is unpacked into. What is left is a list of plain components. The
//! target is built from them with the separator of the host, so that the host
//! reads it as a place below the destination.

use vstd::prelude::*;
use vstd::string::*;
use vstd::std_specs::iter::IteratorSpec;
use crate::text::{is_separator, joined, Separator};

verus! {

/// `.` as a path component.
pub open spec fn current_dir() -> Seq<char> {
    seq!['.']
}

/// `..` as a path component.
pub open spec fn parent_dir() -> Seq<char> {
    seq!['.', '.']
}

/// A character no entry name may hold on a host with this separator. NUL is
/// refused everywhere. `:` marks a drive or a stream where `\` separates and
/// is refused there; where `/` separates it is a character like any other.
pub open spec fn is_forbidden(c: char, separator: Separator) -> bool {
    c == '\0' || (c == ':' && separator == Separator::Backslash)
}

/// A component that names one file or directory and nothing else.
pub open spec fn is_plain(component: Seq<char>, separator: Separator) -> bool {
    &&& component.len() > 0
    &&& component != current_dir()
    &&& component != parent_dir()
    &&& forall|i: int|
        0 <= i < component.len() ==> !is_separator(#[trigger] component[i]) && !is_forbidden(
            component[i], separator,
        )
}

/// Every component of `components` is plain.
pub open spec fn all_plain(components: Seq<Seq<char>>, separator: Separator) -> bool {
    forall|i: int| 0 <= i < components.len() ==> is_plain(#[trigger] components[i], separator)
}

/// `text` cut at every separator. A text without separators is one component;
/// a separator at either end leaves an empty component there.
pub open spec fn split(text: Seq<char>) -> Seq<Seq<char>>
    decreases text.len(),
{
    if text.len() == 0 {
        seq![Seq::<char>::empty()]
    } else {
        let before = split(text.drop_last());
        if is_separator(text.last()) {
            before.push(Seq::<char>::empty())
        } else {
            before.drop_last().push(before.last().push(text.last()))
        }
    }
}

/// The directory stack after one more component: `None` when `..` has nothing
/// to remove.
pub open spec fn descend(stack: Seq<Seq<char>>, component: Seq<char>) -> Option<Seq<Seq<char>>> {
    if component.len() == 0 || component == current_dir() {
        Some(stack)
    } else if component == parent_dir() {
        if stack.len() == 0 {
            None
        } else {
            Some(stack.drop_last())
        }
    } else {
        Some(stack.push(component))
    }
}

/// The directory stack after walking `components` from the destination, or
/// `None` when the walk leaves the destination at some point.
pub open spec fn walk(components: Seq<Seq<char>>) -> Option<Seq<Seq<char>>>
    decreases components.len(),
{
    if components.len() == 0 {
        Some(Seq::<Seq<char>>::empty())
    } else {
        match walk(components.drop_last()) {
            None => None,
            Some(stack) => descend(stack, components.last()),
        }
    }
}

/// `name` holds a forbidden character.
pub open spec fn has_forbidden(name: Seq<char>, separator: Separator) -> bool {
    exists|i: int| 0 <= i < name.len() && is_forbidden(#[trigger] name[i], separator)
}

/// `name` starts at a root instead of the destination.
pub open spec fn is_absolute(name: Seq<char>) -> bool {
    name.len() > 0 && is_separator(name[0])
}

/// The plain components an entry name resolves to, or `None` when the name is
/// refused.
pub open spec fn entry_components(name: Seq<char>, separator: Separator) -> Option<Seq<Seq<char>>> {
    if is_absolute(name) || has_forbidden(name, separator) {
        None
    } else {
        walk(split(name))
    }
}

/// `components` placed under `base`, one after the other, on a host with
/// this separator.
pub open spec fn under(base: Seq<char>, components: Seq<Seq<char>>, separator: Separator) -> Seq<
    char,
>
    decreases components.len(),
{
    if components.len() == 0 {
        base
    } else {
        joined(under(base, components.drop_last(), separator), components.last(), separator)
    }
}

/// The texts of a list of strings.
pub open spec fn texts(strings: Seq<String>) -> Seq<Seq<char>> {
    strings.map_values(|s: String| s@)
}

/// A component without separators and forbidden characters.
pub open spec fn is_clean(component: Seq<char>, separator: Separator) -> bool {
    forall|i: int|
        0 <= i < component.len() ==> !is_separator(#[trigger] component[i]) && !is_forbidden(
            component[i], separator,
        )
}

/// How far one component moves the walk away from the destination: one level
/// down for a name, one level up for `..`, nowhere for `.` and the empty
/// component.
pub open spec fn climb(component: Seq<char>) -> int {
    if component.len() == 0 || component == current_dir() {
        0
    } else if component == parent_dir() {
        -1
    } else {
        1
    }
}

/// The level below the destination that the walk over `components` ends on.
pub open spec fn depth(components: Seq<Seq<char>>) -> int
    decreases components.len(),
{
    if components.len() == 0 {
        0
    } else {
        depth(components.drop_last()) + climb(components.last())
    }
}

/// The walk over `components` is never above the destination.
pub open spec fn stays_below(components: Seq<Seq<char>>) -> bool {
    forall|k: int| 0 <= k <= components.len() ==> depth(#[trigger] components.take(k)) >= 0
}

proof fn lemma_split_nonempty(text: Seq<char>)
    ensures
        split(text).len() >= 1,
    decreases text.len(),
{
    if text.len() > 0 {
        lemma_split_nonempty(text.drop_last());
    }
}

proof fn lemma_split_is_clean(text: Seq<char>, separator: Separator)
    requires
        !has_forbidden(text, separator),
    ensures
        forall|j: int| 0 <= j < split(text).len() ==> is_clean(#[trigger] split(text)[j], separator),
    decreases text.len(),
{
    if text.len() > 0 {
        let shorter = text.drop_last();
        lemma_split_nonempty(shorter);
        assert(!has_forbidden(shorter, separator)) by {
            if has_forbidden(shorter, separator) {
                let k = choose|k: int| 0 <= k < shorter.len() && is_forbidden(#[trigger] shorter[k], separator);
                assert(is_forbidden(text[k], separator));
            }
        }
        lemma_split_is_clean(shorter, separator);
        let before = split(shorter);
        assert(!is_forbidden(text[text.len() - 1], separator));
        if !is_separator(text.last()) {
            let grown = before.last().push(text.last());
            assert(is_clean(before[before.len() - 1], separator));
            assert(is_clean(grown, separator)) by {
                assert forall|i: int| 0 <= i < grown.len() implies !is_separator(
                    #[trigger] grown[i],
                ) && !is_forbidden(grown[i], separator) by {
                    if i < before.last().len() {
                        assert(grown[i] == before.last()[i]);
                    }
                }
            }
        }
    }
}

proof fn lemma_walk_keeps_plain(components: Seq<Seq<char>>, separator: Separator)
    requires
        forall|j: int| 0 <= j < components.len() ==> is_clean(#[trigger] components[j], separator),
    ensures
        walk(components) matches Some(stack) ==> all_plain(stack, separator),
    decreases components.len(),
{
    if components.len() > 0 {
        let before = components.drop_last();
        assert forall|j: int| 0 <= j < before.len() implies is_clean(#[trigger] before[j], separator) by {
            assert(before[j] == components[j]);
        }
        lemma_walk_keeps_plain(before, separator);
        assert(is_clean(components[components.len() - 1], separator));
    }
}

/// An accepted entry name resolves to plain components only: none of them is
/// empty, `.` or `..`, and none holds a separator, `:` or NUL.
pub proof fn lemma_accepted_name_is_plain(name: Seq<char>, separator: Separator)
    ensures
        entry_components(name, separator) matches Some(components) ==> all_plain(components, separator),
{
    if !is_absolute(name) && !has_forbidden(name, separator) {
        lemma_split_is_clean(name, separator);
        lemma_walk_keeps_plain(split(name), separator);
    }
}

/// The walk is refused exactly when it would climb above the destination, and
/// an accepted walk ends as deep as its components say.
pub proof fn lemma_walk_refuses_escapes(components: Seq<Seq<char>>)
    ensures
        walk(components) is Some <==> stays_below(components),
        walk(components) matches Some(stack) ==> stack.len() == depth(components),
    decreases components.len(),
{
    if components.len() == 0 {
        assert forall|k: int| 0 <= k <= components.len() implies depth(
            #[trigger] components.take(k),
        ) >= 0 by {
            assert(components.take(k) =~= components);
        }
    } else {
        let before = components.drop_last();
        lemma_walk_refuses_escapes(before);
        assert(components.take(components.len() as int) =~= components);
        assert forall|k: int| 0 <= k <= before.len() implies before.take(k) == components.take(
            k,
        ) by {
            assert(before.take(k) =~= components.take(k));
        }
        if stays_below(components) {
            assert forall|k: int| 0 <= k <= before.len() implies depth(#[trigger] before.take(k))
                >= 0 by {
                assert(before.take(k) == components.take(k));
            }
            assert(depth(components.take(components.len() as int)) >= 0);
        }
        if walk(components) is Some {
            assert forall|k: int| 0 <= k <= components.len() implies depth(
                #[trigger] components.take(k),
            ) >= 0 by {
                if k <= before.len() {
                    assert(before.take(k) == components.take(k));
                }
            }
        }
    }
}

/// A target built under `base` begins with `base`, whatever the separator.
pub proof fn lemma_under_begins_with_base(
    base: Seq<char>,
    components: Seq<Seq<char>>,
    separator: Separator,
)
    ensures
        under(base, components, separator).len() >= base.len(),
        under(base, components, separator).subrange(0, base.len() as int) == base,
    decreases components.len(),
{
    if components.len() == 0 {
        assert(base.subrange(0, base.len() as int) =~= base);
    } else {
        let before = components.drop_last();
        lemma_under_begins_with_base(base, before, separator);
        let parent = under(base, before, separator);
        let target = under(base, components, separator);
        assert(target.len() >= parent.len());
        assert(target.subrange(0, base.len() as int) =~= parent.subrange(0, base.len() as int));
    }
}

/// The components of `text` that the host has closed with a separator, empty
/// ones left out.
pub open spec fn closed_components(text: Seq<char>, separator: Separator) -> Seq<Seq<char>>
    decreases text.len(),
{
    if text.len() == 0 {
        Seq::<Seq<char>>::empty()
    } else if separator.ends_path(text.last()) {
        let before = closed_components(text.drop_last(), separator);
        let open = open_component(text.drop_last(), separator);
        if open.len() == 0 {
            before
        } else {
            before.push(open)
        }
    } else {
        closed_components(text.drop_last(), separator)
    }
}

/// What follows the last separator of `text` on the host.
pub open spec fn open_component(text: Seq<char>, separator: Separator) -> Seq<char>
    decreases text.len(),
{
    if text.len() == 0 {
        Seq::<char>::empty()
    } else if separator.ends_path(text.last()) {
        Seq::<char>::empty()
    } else {
        open_component(text.drop_last(), separator).push(text.last())
    }
}

/// The components that the host reads in the path `text`: what stands between
/// its separators, empty components left out.
pub open spec fn host_components(text: Seq<char>, separator: Separator) -> Seq<Seq<char>> {
    let open = open_component(text, separator);
    if open.len() == 0 {
        closed_components(text, separator)
    } else {
        closed_components(text, separator).push(open)
    }
}

proof fn lemma_host_reads_tail(text: Seq<char>, tail: Seq<char>, separator: Separator)
    requires
        is_clean(tail, separator),
    ensures
        closed_components(text + tail, separator) == closed_components(text, separator),
        open_component(text + tail, separator) == open_component(text, separator) + tail,
    decreases tail.len(),
{
    if tail.len() == 0 {
        assert(text + tail =~= text);
        assert(open_component(text, separator) + tail =~= open_component(text, separator));
    } else {
        let shorter = tail.drop_last();
        assert(is_clean(shorter, separator)) by {
            assert forall|i: int| 0 <= i < shorter.len() implies !is_separator(
                #[trigger] shorter[i],
            ) && !is_forbidden(shorter[i], separator) by {
                assert(shorter[i] == tail[i]);
            }
        }
        lemma_host_reads_tail(text, shorter, separator);
        assert((text + tail).drop_last() =~= text + shorter);
        assert((text + tail).last() == tail.last());
        assert(!is_separator(tail[tail.len() - 1]));
        assert((open_component(text, separator) + shorter).push(tail.last()) =~= open_component(
            text,
            separator,
        ) + tail);
    }
}

/// Read by the host, a path with a plain component placed under it has the
/// components it had, and then that component.
pub proof fn lemma_host_reads_joined(base: Seq<char>, name: Seq<char>, separator: Separator)
    requires
        is_plain(name, separator),
    ensures
        host_components(joined(base, name, separator), separator) == host_components(
            base,
            separator,
        ).push(name),
{
    let empty = Seq::<char>::empty();
    if base.len() == 0 {
        lemma_host_reads_tail(base, name, separator);
        assert(base + name =~= name);
        assert(empty + name =~= name);
    } else if separator.ends_path(base.last()) {
        lemma_host_reads_tail(base, name, separator);
        assert(empty + name =~= name);
    } else {
        let cut = base + seq![separator.char_of()];
        assert(cut.drop_last() =~= base);
        assert(separator.ends_path(cut.last()));
        lemma_host_reads_tail(cut, name, separator);
        assert(empty + name =~= name);
        assert(open_component(base, separator).len() > 0);
    }
}

/// Read by the host, a target built under `base` from plain components has
/// the components of `base`, and then exactly those components: it names a
/// place below `base`, and nothing of it leads up or elsewhere.
pub proof fn lemma_host_reads_under(
    base: Seq<char>,
    components: Seq<Seq<char>>,
    separator: Separator,
)
    requires
        all_plain(components, separator),
    ensures
        host_components(under(base, components, separator), separator) == host_components(
            base,
            separator,
        ) + components,
    decreases components.len(),
{
    if components.len() == 0 {
        assert(host_components(base, separator) + components =~= host_components(base, separator));
    } else {
        let before = components.drop_last();
        assert(all_plain(before, separator)) by {
            assert forall|i: int| 0 <= i < before.len() implies is_plain(#[trigger] before[i], separator) by {
                assert(before[i] == components[i]);
            }
        }
        lemma_host_reads_under(base, before, separator);
        assert(is_plain(components[components.len() - 1], separator));
        lemma_host_reads_joined(under(base, before, separator), components.last(), separator);
        assert((host_components(base, separator) + before).push(components.last())
            =~= host_components(base, separator) + components);
    }
}

/// `components` written as an entry name, with `/` between them.
pub open spec fn slash_joined(components: Seq<Seq<char>>) -> Seq<char>
    decreases components.len(),
{
    if components.len() == 0 {
        Seq::<char>::empty()
    } else if components.len() == 1 {
        components[0]
    } else {
        slash_joined(components.drop_last()) + seq!['/'] + components.last()
    }
}

proof fn lemma_split_extends(text: Seq<char>, tail: Seq<char>, separator: Separator)
    requires
        is_clean(tail, separator),
    ensures
        split(text).len() >= 1,
        split(text + tail) == split(text).drop_last().push(split(text).last() + tail),
    decreases tail.len(),
{
    lemma_split_nonempty(text);
    if tail.len() == 0 {
        assert(text + tail =~= text);
        assert(split(text).last() + tail =~= split(text).last());
        assert(split(text).drop_last().push(split(text).last()) =~= split(text));
    } else {
        let shorter = tail.drop_last();
        assert(is_clean(shorter, separator)) by {
            assert forall|i: int| 0 <= i < shorter.len() implies !is_separator(
                #[trigger] shorter[i],
            ) && !is_forbidden(shorter[i], separator) by {
                assert(shorter[i] == tail[i]);
            }
        }
        lemma_split_extends(text, shorter, separator);
        assert((text + tail).drop_last() =~= text + shorter);
        assert((text + tail).last() == tail.last());
        assert(!is_separator(tail[tail.len() - 1]));
        let before = split(text + shorter);
        assert(before.drop_last() =~= split(text).drop_last());
        assert(before.last().push(tail.last()) =~= split(text).last() + tail);
    }
}

proof fn lemma_split_of_joined(components: Seq<Seq<char>>, separator: Separator)
    requires
        all_plain(components, separator),
        components.len() > 0,
    ensures
        split(slash_joined(components)) == components,
        !has_forbidden(slash_joined(components), separator),
        slash_joined(components).len() > 0,
        slash_joined(components)[0] == components[0][0],
    decreases components.len(),
{
    let last = components.last();
    assert(is_plain(last, separator));
    assert(is_plain(components[0], separator));
    let empty = Seq::<char>::empty();
    if components.len() == 1 {
        assert(split(empty) =~= seq![empty]);
        lemma_split_extends(empty, last, separator);
        assert(empty + last =~= last);
        assert(split(last) =~= components);
        assert(!has_forbidden(last, separator));
    } else {
        let before = components.drop_last();
        assert(all_plain(before, separator)) by {
            assert forall|i: int| 0 <= i < before.len() implies is_plain(#[trigger] before[i], separator) by {
                assert(before[i] == components[i]);
            }
        }
        lemma_split_of_joined(before, separator);
        let head = slash_joined(before);
        let cut = head + seq!['/'];
        assert(cut.drop_last() =~= head);
        assert(split(cut) == before.push(empty));
        lemma_split_extends(cut, last, separator);
        assert(split(cut).drop_last() =~= before);
        assert(empty + last =~= last);
        assert(split(cut + last) =~= components);
        let name = slash_joined(components);
        assert(name == cut + last);
        assert(before[0] == components[0]);
        assert(!has_forbidden(name, separator)) by {
            if has_forbidden(name, separator) {
                let k = choose|k: int| 0 <= k < name.len() && is_forbidden(#[trigger] name[k], separator);
                if k < head.len() {
                    assert(is_forbidden(head[k], separator));
                } else if k > head.len() {
                    assert(name[k] == last[k - head.len() - 1]);
                }
            }
        }
    }
}

proof fn lemma_walk_of_plain(components: Seq<Seq<char>>, separator: Separator)
    requires
        all_plain(components, separator),
    ensures
        walk(components) == Some(components),
    decreases components.len(),
{
    if components.len() > 0 {
        let before = components.drop_last();
        assert(all_plain(before, separator)) by {
            assert forall|i: int| 0 <= i < before.len() implies is_plain(#[trigger] before[i], separator) by {
                assert(before[i] == components[i]);
            }
        }
        lemma_walk_of_plain(before, separator);
        assert(is_plain(components[components.len() - 1], separator));
        assert(before.push(components.last()) =~= components);
    } else {
        assert(components =~= Seq::<Seq<char>>::empty());
    }
}

/// A name written as plain components with `/` between them is accepted, and
/// resolves to exactly those components.
pub proof fn lemma_plain_name_is_kept(components: Seq<Seq<char>>, separator: Separator)
    requires
        all_plain(components, separator),
        components.len() > 0,
    ensures
        entry_components(slash_joined(components), separator) == Some(components),
{
    lemma_split_of_joined(components, separator);
    lemma_walk_of_plain(components, separator);
    assert(is_plain(components[0], separator));
}

/// Takes one more component into the directory stack. Returns `false`, and
/// leaves the stack as it was, when the component is `..` and the stack is
/// empty.
fn step_into(stack: &mut Vec<String>, component: String) -> (kept: bool)
    ensures
        match descend(texts(old(stack)@), component@) {
            Some(next) => kept && texts(final(stack)@) == next,
            None => !kept && final(stack)@ == old(stack)@,
        },
{
    let len: usize = component.as_str().unicode_len();
    if len == 0 {
        return true;
    }
    let first = component.as_str().get_char(0);
    if len == 1 && first == '.' {
        assert(component@ =~= current_dir());
        return true;
    }
    if len == 2 && first == '.' && component.as_str().get_char(1) == '.' {
        assert(component@ =~= parent_dir());
        if stack.len() == 0 {
            return false;
        }
        let ghost before = stack@;
        stack.pop();
        assert(texts(stack@) =~= texts(before).drop_last());
        return true;
    }
    assert(component@ != current_dir()) by {
        if component@ == current_dir() {
            assert(component@.len() == 1 && component@[0] == '.');
        }
    }
    assert(component@ != parent_dir()) by {
        if component@ == parent_dir() {
            assert(component@.len() == 2 && component@[0] == '.' && component@[1] == '.');
        }
    }
    let ghost before = stack@;
    stack.push(component);
    assert(texts(stack@) =~= texts(before).push(component@));
    true
}

/// A forbidden character in the first `i + 1` characters is one in the first
/// `i`, or the character at `i`.
proof fn lemma_forbidden_grows(name: Seq<char>, i: int, separator: Separator)
    requires
        0 <= i < name.len(),
    ensures
        has_forbidden(name.take(i + 1), separator) == (has_forbidden(name.take(i), separator) || is_forbidden(name[i], separator)),
{
    let shorter = name.take(i);
    let longer = name.take(i + 1);
    if has_forbidden(shorter, separator) {
        let k = choose|k: int| 0 <= k < shorter.len() && is_forbidden(#[trigger] shorter[k], separator);
        assert(is_forbidden(longer[k], separator));
    }
    if is_forbidden(name[i], separator) {
        assert(is_forbidden(longer[i], separator));
    }
    if has_forbidden(longer, separator) {
        let k = choose|k: int| 0 <= k < longer.len() && is_forbidden(#[trigger] longer[k], separator);
        if k < i {
            assert(is_forbidden(shorter[k], separator));
        }
    }
}

/// Resolves an entry name to the plain components of its target, or refuses
/// it. The name is read once, from its first character to its last.
pub fn resolve_entry_name(name: &str, separator: Separator) -> (components: Option<Vec<String>>)
    ensures
        match components {
            Some(list) => entry_components(name@, separator) == Some(texts(list@)),
            None => entry_components(name@, separator) is None,
        },
{
    let mut stack: Vec<String> = Vec::new();
    let mut current = String::new();
    let mut escaped = false;
    let mut forbidden = false;
    let mut absolute = false;
    let mut at_start = true;
    let mut chars = name.chars();
    let ghost mut i: int = 0;
    let ghost mut done: Seq<Seq<char>> = Seq::empty();
    proof {
        axiom_spec_iter(name);
        assert(name@.skip(0) =~= name@);
        assert(name@.take(0) =~= Seq::<char>::empty());
        assert(split(name@.take(0)) =~= done.push(current@));
        assert(texts(stack@) =~= Seq::<Seq<char>>::empty());
    }
    loop
        invariant
            0 <= i <= name@.len(),
            chars.remaining() == name@.skip(i),
            split(name@.take(i)) == done.push(current@),
            walk(done) == (if escaped {
                None
            } else {
                Some(texts(stack@))
            }),
            forbidden == has_forbidden(name@.take(i), separator),
            at_start == (i == 0),
            absolute == (i > 0 && is_separator(name@[0])),
        ensures
            i == name@.len(),
        decreases name@.len() - i,
    {
        let ghost before = chars;
        let next = chars.next();
        proof {
            next_postcondition(&before, &chars, next);
        }
        let c = match next {
            None => {
                break ;
            },
            Some(c) => c,
        };
        proof {
            assert(c == name@[i]);
            assert(name@.skip(i).drop_first() =~= name@.skip(i + 1));
            lemma_forbidden_grows(name@, i, separator);
            assert(name@.take(i + 1).drop_last() =~= name@.take(i));
            assert(name@.take(i + 1).last() == c);
            assert(done.push(current@).drop_last() =~= done);
        }
        if c == '\0' || (c == ':' && separator == Separator::Backslash) {
            forbidden = true;
        }
        if c == '/' || c == '\\' {
            if at_start {
                absolute = true;
            }
            let ghost part = current@;
            let mut finished = String::new();
            std::mem::swap(&mut current, &mut finished);
            if !escaped {
                let kept = step_into(&mut stack, finished);
                if !kept {
                    escaped = true;
                }
            }
            proof {
                assert(done.push(part).drop_last() =~= done);
                done = done.push(part);
            }
        } else {
            current.push(c);
        }
        at_start = false;
        proof {
            i = i + 1;
        }
    }
    proof {
        assert(name@.take(i) =~= name@);
        assert(done.push(current@).drop_last() =~= done);
    }
    if !escaped {
        let kept = step_into(&mut stack, current);
        if !kept {
            escaped = true;
        }
    }
    if forbidden || escaped || absolute {
        None
    } else {
        Some(stack)
    }
}

} // verus!
