//! The test that keeps an archive member below the directory it is unpacked
//! into, and what passing the test means for the path that is written.
//!
//! A path is read as parts with `/` between them. A walk along the parts
//! descends one level with every part but three: `..` climbs one level, `.`
//! and the empty part stay.

use vstd::prelude::*;
use crate::paths::joined;
use crate::text::chars_of;

verus! {

/// The parts of `s` between its separators, in order. There is always one
/// part more than there are separators; parts may be empty.
pub open spec fn split(s: Seq<char>, sep: char) -> Seq<Seq<char>>
    decreases s.len(),
{
    if s.len() == 0 {
        seq![Seq::<char>::empty()]
    } else {
        let before = split(s.drop_last(), sep);
        if s.last() == sep {
            before.push(Seq::<char>::empty())
        } else {
            before.update(before.len() - 1, before.last().push(s.last()))
        }
    }
}

/// How one part of a path moves a walk that follows it: `..` climbs one
/// level, an empty part and `.` stay, any other part descends one level.
pub open spec fn level_change(part: Seq<char>) -> int {
    if part == seq!['.', '.'] {
        -1
    } else if part.len() == 0 || part == seq!['.'] {
        0
    } else {
        1
    }
}

/// The level, counted from the starting directory, at which a walk along
/// `parts` ends; `None` where it climbs above the starting directory on the
/// way.
pub open spec fn level_after(parts: Seq<Seq<char>>) -> Option<nat>
    decreases parts.len(),
{
    if parts.len() == 0 {
        Some(0nat)
    } else {
        match level_after(parts.drop_last()) {
            None => None,
            Some(level) => {
                let next = level + level_change(parts.last());
                if next < 0 {
                    None
                } else {
                    Some(next as nat)
                }
            },
        }
    }
}

/// Whether the relative path `rel` names something at or below the directory
/// it is resolved in: it does not start at the file system's root, and a
/// walk along its parts never climbs above the directory it started in.
pub open spec fn stays_inside(rel: Seq<char>) -> bool {
    &&& rel.len() > 0 ==> rel[0] != '/'
    &&& level_after(split(rel, '/')) is Some
}

/// The directories that a walk along `parts` has descended into and not
/// left again, from the start of the walk down; `None` where the walk
/// climbs above its start.
pub open spec fn resolved(parts: Seq<Seq<char>>) -> Option<Seq<Seq<char>>>
    decreases parts.len(),
{
    if parts.len() == 0 {
        Some(Seq::<Seq<char>>::empty())
    } else {
        match resolved(parts.drop_last()) {
            None => None,
            Some(above) => {
                let change = level_change(parts.last());
                if change == 1 {
                    Some(above.push(parts.last()))
                } else if change == 0 {
                    Some(above)
                } else if above.len() == 0 {
                    None
                } else {
                    Some(above.drop_last())
                }
            },
        }
    }
}

/// The directory `dir` is `base` or lies below it.
pub open spec fn at_or_below(base: Seq<Seq<char>>, dir: Seq<Seq<char>>) -> bool {
    base.len() <= dir.len() && dir.subrange(0, base.len() as int) =~= base
}

/// From its part number `from` on, a walk along `parts` is always at or
/// below the directory `base`.
pub open spec fn stays_below(parts: Seq<Seq<char>>, from: int, base: Seq<Seq<char>>) -> bool {
    forall|k: int|
        from <= k <= parts.len() ==> match #[trigger] resolved(parts.take(k)) {
            Some(dir) => at_or_below(base, dir),
            None => false,
        }
}

/// The parts of the path of the directory `root` that stand before the
/// parts of a name joined to it.
pub open spec fn root_parts(root: Seq<char>) -> Seq<Seq<char>> {
    if root.len() == 0 {
        Seq::<Seq<char>>::empty()
    } else if root.last() == '/' {
        split(root, '/').drop_last()
    } else {
        split(root, '/')
    }
}

/// The level of a walk is the number of directories it has descended into
/// and not left again.
pub proof fn lemma_level_is_depth(parts: Seq<Seq<char>>)
    ensures
        match resolved(parts) {
            Some(dir) => level_after(parts) == Some(dir.len()),
            None => level_after(parts) is None,
        },
    decreases parts.len(),
{
    if parts.len() > 0 {
        lemma_level_is_depth(parts.drop_last());
    }
}

/// A walk that never climbs above its start has not done so after any
/// number of its parts.
proof fn lemma_level_prefix(parts: Seq<Seq<char>>, k: int)
    requires
        level_after(parts) is Some,
        0 <= k <= parts.len(),
    ensures
        level_after(parts.take(k)) is Some,
    decreases parts.len(),
{
    if k == parts.len() {
        assert(parts.take(k) =~= parts);
    } else {
        assert(parts.drop_last().take(k) =~= parts.take(k));
        lemma_level_prefix(parts.drop_last(), k);
    }
}

/// A walk that never climbs above its start goes the same way from any
/// directory: it ends below the directory it started from, by the
/// directories it descended into.
proof fn lemma_walk_from(first: Seq<Seq<char>>, rest: Seq<Seq<char>>)
    requires
        resolved(first) is Some,
        resolved(rest) is Some,
    ensures
        resolved(first + rest) == Some(resolved(first)->0 + resolved(rest)->0),
    decreases rest.len(),
{
    let base = resolved(first)->0;
    if rest.len() == 0 {
        assert(first + rest =~= first);
        assert(base + resolved(rest)->0 =~= base);
    } else {
        let before = rest.drop_last();
        lemma_walk_from(first, before);
        assert((first + rest).drop_last() =~= first + before);
        assert((first + rest).last() == rest.last());
        let above = resolved(before)->0;
        let change = level_change(rest.last());
        if change == 1 {
            assert((base + above).push(rest.last()) =~= base + above.push(rest.last()));
        } else if change != 0 {
            assert((base + above).drop_last() =~= base + above.drop_last());
        }
    }
}

/// A walk that climbs above its start does so for the first time with a
/// `..` at the level of its start.
proof fn lemma_first_climb(rest: Seq<Seq<char>>) -> (k: int)
    requires
        level_after(rest) is None,
    ensures
        0 <= k < rest.len(),
        level_after(rest.take(k)) == Some(0nat),
        level_change(rest[k]) == -1,
    decreases rest.len(),
{
    let before = rest.drop_last();
    if level_after(before) is None {
        let k = lemma_first_climb(before);
        assert(before.take(k) =~= rest.take(k));
        k
    } else {
        assert(rest.take(rest.len() - 1) =~= before);
        rest.len() - 1
    }
}

/// What the test of the levels means. Resolved in any directory, a walk
/// passes the test exactly if it is at or below that directory after every
/// one of its parts.
pub proof fn lemma_walk_stays_below(first: Seq<Seq<char>>, rest: Seq<Seq<char>>)
    requires
        resolved(first) is Some,
    ensures
        level_after(rest) is Some <==> stays_below(
            first + rest,
            first.len() as int,
            resolved(first)->0,
        ),
{
    let base = resolved(first)->0;
    let whole = first + rest;
    if level_after(rest) is Some {
        assert forall|k: int| first.len() <= k <= whole.len() implies match #[trigger] resolved(
            whole.take(k),
        ) {
            Some(dir) => at_or_below(base, dir),
            None => false,
        } by {
            let j = k - first.len();
            lemma_level_prefix(rest, j);
            lemma_level_is_depth(rest.take(j));
            lemma_walk_from(first, rest.take(j));
            assert(whole.take(k) =~= first + rest.take(j));
            let below = resolved(rest.take(j))->0;
            assert((base + below).subrange(0, base.len() as int) =~= base);
        }
    } else {
        let j = lemma_first_climb(rest);
        let k = first.len() + j + 1;
        lemma_level_is_depth(rest.take(j));
        lemma_walk_from(first, rest.take(j));
        assert(base + resolved(rest.take(j))->0 =~= base);
        assert(whole.take(k).drop_last() =~= first + rest.take(j));
        assert(whole.take(k).last() == rest[j]);
        assert(match resolved(whole.take(k)) {
            Some(dir) => !at_or_below(base, dir),
            None => true,
        });
    }
}

/// A text has one part at least.
pub proof fn lemma_split_len(s: Seq<char>, sep: char)
    ensures
        split(s, sep).len() >= 1,
    decreases s.len(),
{
    if s.len() > 0 {
        lemma_split_len(s.drop_last(), sep);
    }
}

/// The parts of two texts put together: those of the first, then those of
/// the second, with the last part of the first and the first part of the
/// second grown into one.
proof fn lemma_split_add(a: Seq<char>, b: Seq<char>, sep: char)
    ensures
        split(a + b, sep) == split(a, sep).drop_last().push(split(a, sep).last() + split(b, sep)[0])
            + split(b, sep).drop_first(),
    decreases b.len(),
{
    let left = split(a, sep);
    let right = split(b, sep);
    lemma_split_len(a, sep);
    lemma_split_len(b, sep);
    let joint = left.drop_last().push(left.last() + right[0]) + right.drop_first();
    if b.len() == 0 {
        assert(a + b =~= a);
        assert(left.last() + right[0] =~= left.last());
        assert(joint =~= left);
    } else {
        let shorter = b.drop_last();
        let before = split(shorter, sep);
        lemma_split_add(a, shorter, sep);
        lemma_split_len(shorter, sep);
        assert((a + b).drop_last() =~= a + shorter);
        assert((a + b).last() == b.last());
        let joint_before = left.drop_last().push(left.last() + before[0]) + before.drop_first();
        if b.last() == sep {
            assert(joint_before.push(Seq::<char>::empty()) =~= joint);
        } else if before.len() == 1 {
            assert((left.last() + before[0]).push(b.last()) =~= left.last() + before[0].push(
                b.last(),
            ));
            assert(joint_before.update(joint_before.len() - 1, joint_before.last().push(b.last()))
                =~= joint);
        } else {
            assert(joint_before.update(joint_before.len() - 1, joint_before.last().push(b.last()))
                =~= joint);
        }
    }
}

/// The parts of a joined path are the parts of the directory, then the
/// parts of the name; and the parts of the directory lead where the
/// directory's own path leads.
pub proof fn lemma_split_joined(root: Seq<char>, rel: Seq<char>)
    ensures
        split(joined(root, rel), '/') == root_parts(root) + split(rel, '/'),
        resolved(root_parts(root)) == resolved(split(root, '/')),
{
    reveal_strlit("/");
    let name = split(rel, '/');
    lemma_split_len(rel, '/');
    lemma_split_len(root, '/');
    assert(name.drop_first().len() == name.len() - 1);
    if root.len() == 0 {
        assert(root_parts(root) + name =~= name);
        let parts = split(root, '/');
        assert(parts.drop_last() =~= Seq::<Seq<char>>::empty());
        assert(parts.last() =~= Seq::<char>::empty());
        assert(level_change(parts.last()) == 0);
        assert(resolved(parts.drop_last()) == Some(Seq::<Seq<char>>::empty()));
    } else if root.last() == '/' {
        let parts = split(root, '/');
        assert(parts.last() =~= Seq::<char>::empty());
        assert(level_change(parts.last()) == 0);
        lemma_split_add(root, rel, '/');
        assert(parts.last() + name[0] =~= name[0]);
        assert(parts.drop_last().push(name[0]) + name.drop_first() =~= parts.drop_last() + name);
    } else {
        let slashed = root + "/"@;
        assert("/"@ =~= seq!['/']);
        assert(slashed.drop_last() =~= root);
        assert(slashed.last() == '/');
        let parts = split(slashed, '/');
        assert(parts == split(root, '/').push(Seq::<char>::empty()));
        lemma_split_add(slashed, rel, '/');
        assert(parts.last() + name[0] =~= name[0]);
        assert(parts.drop_last() =~= split(root, '/'));
        assert(split(root, '/').push(name[0]) + name.drop_first() =~= split(root, '/') + name);
    }
}

/// What the test means for the path that is written. Joined to a directory
/// `root`, a name that does not start with `/` passes the test exactly if a
/// walk along the joined path, once it has passed the parts of `root`, is
/// at or below `root` after every part: it never leaves the directory, not
/// even to come back.
pub proof fn lemma_enclosed_means_below_root(root: Seq<char>, rel: Seq<char>)
    requires
        resolved(split(root, '/')) is Some,
        rel.len() > 0 ==> rel[0] != '/',
    ensures
        stays_inside(rel) <==> stays_below(
            split(joined(root, rel), '/'),
            root_parts(root).len() as int,
            resolved(split(root, '/'))->0,
        ),
{
    lemma_split_joined(root, rel);
    lemma_walk_stays_below(root_parts(root), split(rel, '/'));
}

/// Whether the relative path `rel` stays at or below the directory it is
/// resolved in.
pub fn is_enclosed(rel: &str) -> (r: bool)
    ensures
        r == stays_inside(rel@),
{
    let chars = chars_of(rel);
    if chars.len() > 0 && chars[0] == '/' {
        return false;
    }
    let mut level: usize = 0;
    let mut climbed_out = false;
    let mut len: usize = 0;
    let mut dots = true;
    let ghost mut done: Seq<Seq<char>> = Seq::empty();
    let ghost mut part: Seq<char> = Seq::empty();
    let mut i: usize = 0;
    assert(chars@.take(0) =~= Seq::<char>::empty());
    assert(seq![Seq::<char>::empty()] =~= done.push(part));
    while i < chars.len()
        invariant
            i <= chars.len(),
            split(chars@.take(i as int), '/') == done.push(part),
            level_after(done) == (if climbed_out { None } else { Some(level as nat) }),
            level <= i,
            len == part.len(),
            len <= i,
            dots == (forall|k: int| 0 <= k < part.len() ==> part[k] == '.'),
        decreases chars.len() - i,
    {
        let c = chars[i];
        proof {
            assert(chars@.take(i + 1).drop_last() =~= chars@.take(i as int));
            assert(chars@.take(i + 1).last() == c);
        }
        if c == '/' {
            proof {
                assert(done.push(part).drop_last() =~= done);
                lemma_level_change(part, len as nat, dots);
            }
            if !climbed_out {
                if dots && len == 2 {
                    if level == 0 {
                        climbed_out = true;
                    } else {
                        level = level - 1;
                    }
                } else if !(len == 0 || (dots && len == 1)) {
                    level = level + 1;
                }
            }
            proof {
                done = done.push(part);
                part = Seq::empty();
            }
            len = 0;
            dots = true;
        } else {
            proof {
                let before = done.push(part);
                assert(before.update(before.len() - 1, before.last().push(c))
                    =~= done.push(part.push(c)));
                let longer = part.push(c);
                assert(longer[part.len() as int] == c);
                assert(forall|k: int| 0 <= k < part.len() ==> longer[k] == part[k]);
                if dots && c == '.' {
                    assert(forall|k: int| 0 <= k < longer.len() ==> longer[k] == '.');
                } else if !dots {
                    let k = choose|k: int| 0 <= k < part.len() && part[k] != '.';
                    assert(longer[k] != '.');
                }
                part = longer;
            }
            len = len + 1;
            dots = dots && c == '.';
        }
        i = i + 1;
    }
    proof {
        assert(chars@.take(chars.len() as int) =~= chars@);
        assert(done.push(part).drop_last() =~= done);
        lemma_level_change(part, len as nat, dots);
    }
    !climbed_out && !(dots && len == 2 && level == 0)
}

/// What a part does to the level, told from its length and from whether it
/// holds anything but dots.
proof fn lemma_level_change(part: Seq<char>, len: nat, dots: bool)
    requires
        len == part.len(),
        dots == (forall|k: int| 0 <= k < part.len() ==> part[k] == '.'),
    ensures
        level_change(part) == (if dots && len == 2 {
            -1int
        } else if len == 0 || (dots && len == 1) {
            0int
        } else {
            1int
        }),
{
    if dots && len == 2 {
        assert(part =~= seq!['.', '.']);
    } else if dots && len == 1 {
        assert(part =~= seq!['.']);
    } else if len != 0 {
        if part == seq!['.', '.'] || part == seq!['.'] {
            assert(forall|k: int| 0 <= k < part.len() ==> part[k] == '.');
        }
    }
}

} // verus!
