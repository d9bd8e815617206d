use vstd::prelude::*;
use crate::key_map::key_binding::{KeyBinding, KeyEvent};

verus! {

/// How a sequence of keystrokes stands among the key bindings.
#[derive(Clone, Copy, Debug, PartialEq, Eq, Structural)]
pub enum Answer {
    /// Some binding has exactly these keystrokes, and none starts with them and goes on.
    Match,
    /// Some binding starts with these keystrokes and goes on; none has exactly them.
    Prefix,
    /// Some binding has exactly these keystrokes, and another starts with them and goes on.
    PrefixAndMatch,
}

pub open spec fn binding_keys<T>(bindings: Seq<KeyBinding<T>>, i: int) -> Seq<KeyEvent> {
    bindings[i].keys@
}

/// Whether some binding has exactly the keystrokes `keys`.
pub open spec fn has_exact<T>(bindings: Seq<KeyBinding<T>>, keys: Seq<KeyEvent>) -> bool {
    exists|i: int| 0 <= i < bindings.len() && #[trigger] binding_keys(bindings, i) == keys
}

/// Whether some binding starts with the keystrokes `keys` and goes on.
pub open spec fn has_longer<T>(bindings: Seq<KeyBinding<T>>, keys: Seq<KeyEvent>) -> bool {
    exists|i: int|
        0 <= i < bindings.len() && #[trigger] binding_keys(bindings, i).len() > keys.len()
            && binding_keys(bindings, i).take(keys.len() as int) == keys
}

/// How `keys` stands among the bindings; nothing when no binding starts with them.
pub open spec fn answer_for<T>(bindings: Seq<KeyBinding<T>>, keys: Seq<KeyEvent>) -> Option<Answer> {
    if has_exact(bindings, keys) && has_longer(bindings, keys) {
        Some(Answer::PrefixAndMatch)
    } else if has_exact(bindings, keys) {
        Some(Answer::Match)
    } else if has_longer(bindings, keys) {
        Some(Answer::Prefix)
    } else {
        None
    }
}

/// The position of the first binding with exactly the keystrokes `keys`.
pub open spec fn first_exact<T>(bindings: Seq<KeyBinding<T>>, keys: Seq<KeyEvent>) -> Option<int>
    decreases bindings.len(),
{
    if bindings.len() == 0 {
        None
    } else {
        match first_exact(bindings.drop_last(), keys) {
            Some(i) => Some(i),
            None => if bindings.last().keys@ == keys {
                Some(bindings.len() - 1)
            } else {
                None
            },
        }
    }
}

pub proof fn lemma_first_exact<T>(bindings: Seq<KeyBinding<T>>, keys: Seq<KeyEvent>)
    ensures
        first_exact(bindings, keys) is Some <==> has_exact(bindings, keys),
        first_exact(bindings, keys) matches Some(i) ==> 0 <= i < bindings.len() && binding_keys(bindings, i)
            == keys && forall|j: int| 0 <= j < i ==> binding_keys(bindings, j) != keys,
    decreases bindings.len(),
{
    if bindings.len() > 0 {
        let prev = bindings.drop_last();
        lemma_first_exact(prev, keys);
        assert forall|j: int| 0 <= j < prev.len() implies binding_keys(prev, j) == binding_keys(bindings, j) by {}
        if has_exact(bindings, keys) && !has_exact(prev, keys) {
            let i = choose|i: int| 0 <= i < bindings.len() && #[trigger] binding_keys(bindings, i) == keys;
            if i < prev.len() {
                assert(binding_keys(prev, i) == keys);
            }
        }
        if has_exact(prev, keys) {
            let i = choose|i: int| 0 <= i < prev.len() && #[trigger] binding_keys(prev, i) == keys;
            assert(binding_keys(bindings, i) == keys);
        }
        assert(binding_keys(bindings, bindings.len() - 1) == bindings.last().keys@);
    }
}

/// Every proper prefix of a binding's keystrokes is answered as a prefix, so a key sequence
/// that follows a binding is kept until it is complete.
pub proof fn lemma_binding_prefixes_are_kept<T>(bindings: Seq<KeyBinding<T>>, i: int, j: int)
    requires
        0 <= i < bindings.len(),
        0 <= j < bindings[i].keys@.len(),
    ensures
        answer_for(bindings, bindings[i].keys@.take(j)) == Some(Answer::Prefix) || answer_for(
            bindings,
            bindings[i].keys@.take(j),
        ) == Some(Answer::PrefixAndMatch),
{
    let keys = bindings[i].keys@.take(j);
    assert(binding_keys(bindings, i).take(keys.len() as int) =~= keys);
    assert(has_longer(bindings, keys));
}

/// The complete keystrokes of a binding that no longer binding starts with are answered
/// as a match, with the command of the first binding that has those keystrokes.
pub proof fn lemma_complete_binding_matches<T>(bindings: Seq<KeyBinding<T>>, i: int)
    requires
        0 <= i < bindings.len(),
        !has_longer(bindings, bindings[i].keys@),
    ensures
        answer_for(bindings, bindings[i].keys@) == Some(Answer::Match),
        command_for(bindings, bindings[i].keys@) matches Some(command) && exists|f: int|
            0 <= f <= i && bindings[f].keys@ == bindings[i].keys@ && command == bindings[f].command
                && forall|e: int| 0 <= e < f ==> bindings[e].keys@ != bindings[i].keys@,
{
    let keys = bindings[i].keys@;
    assert(binding_keys(bindings, i) == keys);
    lemma_first_exact(bindings, keys);
    let f = first_exact(bindings, keys)->0;
    if f > i {
        assert(binding_keys(bindings, i) != keys);
    }
    assert forall|e: int| 0 <= e < f implies bindings[e].keys@ != keys by {
        assert(binding_keys(bindings, e) != keys);
    }
}

/// The command bound to exactly the keystrokes `keys`: that of the first binding with them.
pub open spec fn command_for<T>(bindings: Seq<KeyBinding<T>>, keys: Seq<KeyEvent>) -> Option<T> {
    match first_exact(bindings, keys) {
        Some(i) => Some(bindings[i].command),
        None => None,
    }
}

/// Where a key sequence goes after one more keystroke, and the command it gives: a
/// complete binding that no longer binding extends gives its command and returns to the
/// root; a sequence that a longer binding starts with is kept; anything else returns to
/// the root.
pub open spec fn key_step<T>(bindings: Seq<KeyBinding<T>>, position: Seq<KeyEvent>, key: KeyEvent) -> (
    Seq<KeyEvent>,
    Option<T>,
) {
    let keys = position.push(key);
    match answer_for(bindings, keys) {
        Some(Answer::Match) => (Seq::empty(), command_for(bindings, keys)),
        Some(_) => (keys, None),
        None => (Seq::empty(), None),
    }
}

/// The position after typing `keys` from `position`, and the command given by the last
/// keystroke.
pub open spec fn key_run<T>(bindings: Seq<KeyBinding<T>>, position: Seq<KeyEvent>, keys: Seq<KeyEvent>) -> (
    Seq<KeyEvent>,
    Option<T>,
)
    decreases keys.len(),
{
    if keys.len() == 0 {
        (position, None)
    } else {
        key_step(bindings, key_run(bindings, position, keys.drop_last()).0, keys.last())
    }
}

/// Typing the keystrokes of a binding from the root, when no longer binding starts with
/// them, gives the command of the first binding with those keystrokes, and returns to the
/// root; every keystroke before the last keeps the sequence.
pub proof fn lemma_typing_a_binding<T>(bindings: Seq<KeyBinding<T>>, i: int)
    requires
        0 <= i < bindings.len(),
        bindings[i].keys@.len() > 0,
        !has_longer(bindings, bindings[i].keys@),
    ensures
        forall|j: int|
            0 <= j < bindings[i].keys@.len() ==> #[trigger] key_run(
                bindings,
                Seq::empty(),
                bindings[i].keys@.take(j),
            ).0 == bindings[i].keys@.take(j),
        key_run(bindings, Seq::empty(), bindings[i].keys@) == (
            Seq::<KeyEvent>::empty(),
            command_for(bindings, bindings[i].keys@),
        ),
        command_for(bindings, bindings[i].keys@) is Some,
{
    let keys = bindings[i].keys@;
    let n = keys.len() as int;
    assert forall|j: int| 0 <= j < n implies #[trigger] key_run(bindings, Seq::empty(), keys.take(j)).0
        == keys.take(j) by {
        lemma_typing_prefix(bindings, i, j);
    }
    lemma_typing_prefix(bindings, i, n - 1);
    assert(keys.take(n).drop_last() =~= keys.take(n - 1));
    assert(keys.take(n - 1).push(keys[n - 1]) =~= keys);
    assert(keys.take(n) =~= keys);
    lemma_complete_binding_matches(bindings, i);
}

proof fn lemma_typing_prefix<T>(bindings: Seq<KeyBinding<T>>, i: int, j: int)
    requires
        0 <= i < bindings.len(),
        0 <= j < bindings[i].keys@.len(),
    ensures
        key_run(bindings, Seq::empty(), bindings[i].keys@.take(j)).0 == bindings[i].keys@.take(j),
    decreases j,
{
    let keys = bindings[i].keys@;
    if j == 0 {
        assert(keys.take(0) =~= Seq::<KeyEvent>::empty());
    } else {
        lemma_typing_prefix(bindings, i, j - 1);
        assert(keys.take(j).drop_last() =~= keys.take(j - 1));
        assert(keys.take(j - 1).push(keys[j - 1]) =~= keys.take(j));
        lemma_binding_prefixes_are_kept(bindings, i, j);
    }
}

/// Key bindings, searched by the keystrokes typed so far.
pub struct KeyMap<T> {
    bindings: Vec<KeyBinding<T>>,
}

impl<T> KeyMap<T> {
    /// The bindings, in order.
    pub closed spec fn spec_bindings(&self) -> Seq<KeyBinding<T>> {
        self.bindings@
    }

    pub fn new(bindings: Vec<KeyBinding<T>>) -> (res: Self)
        ensures
            res.spec_bindings() == bindings@,
    {
        KeyMap { bindings }
    }

    pub fn bindings(&self) -> (res: &[KeyBinding<T>])
        ensures
            res@ == self.spec_bindings(),
    {
        self.bindings.as_slice()
    }

    pub fn set_bindings(&mut self, bindings: Vec<KeyBinding<T>>)
        ensures
            final(self).spec_bindings() == bindings@,
    {
        self.bindings = bindings;
    }

    fn keys_equal(a: &Vec<KeyEvent>, b: &Vec<KeyEvent>) -> (res: bool)
        ensures
            res == (a@ == b@),
    {
        if a.len() != b.len() {
            return false;
        }
        let mut i: usize = 0;
        while i < a.len()
            invariant
                0 <= i <= a.len(),
                a.len() == b.len(),
                a@.take(i as int) == b@.take(i as int),
            decreases a.len() - i,
        {
            if a[i] != b[i] {
                return false;
            }
            proof {
                assert(a@.take(i + 1) =~= a@.take(i as int).push(a@[i as int]));
                assert(b@.take(i + 1) =~= b@.take(i as int).push(b@[i as int]));
            }
            i = i + 1;
        }
        proof {
            assert(a@.take(a.len() as int) =~= a@);
            assert(b@.take(b.len() as int) =~= b@);
        }
        true
    }

    /// Whether `prefix` is `keys` cut short: shorter, and equal to the start of `keys`.
    fn is_shorter_prefix(prefix: &Vec<KeyEvent>, keys: &Vec<KeyEvent>) -> (res: bool)
        ensures
            res == (keys@.len() > prefix@.len() && keys@.take(prefix@.len() as int) == prefix@),
    {
        if keys.len() <= prefix.len() {
            return false;
        }
        let mut i: usize = 0;
        while i < prefix.len()
            invariant
                0 <= i <= prefix.len(),
                prefix.len() < keys.len(),
                keys@.take(i as int) == prefix@.take(i as int),
            decreases prefix.len() - i,
        {
            if keys[i] != prefix[i] {
                proof {
                    assert(keys@.take(prefix@.len() as int)[i as int] == keys@[i as int]);
                }
                return false;
            }
            proof {
                assert(keys@.take(i + 1) =~= keys@.take(i as int).push(keys@[i as int]));
                assert(prefix@.take(i + 1) =~= prefix@.take(i as int).push(prefix@[i as int]));
            }
            i = i + 1;
        }
        proof {
            assert(prefix@.take(prefix.len() as int) =~= prefix@);
        }
        true
    }

    /// How `keys` stands among the bindings.
    pub fn query(&self, keys: &Vec<KeyEvent>) -> (res: Option<Answer>)
        ensures
            res == answer_for(self.spec_bindings(), keys@),
    {
        let mut exact = false;
        let mut longer = false;
        let mut i: usize = 0;
        while i < self.bindings.len()
            invariant
                0 <= i <= self.bindings.len(),
                exact == has_exact(self.bindings@.take(i as int), keys@),
                longer == has_longer(self.bindings@.take(i as int), keys@),
            decreases self.bindings.len() - i,
        {
            let ghost before = self.bindings@.take(i as int);
            let ghost after = self.bindings@.take(i + 1);
            proof {
                assert forall|j: int| 0 <= j < before.len() implies binding_keys(before, j) == binding_keys(
                    after,
                    j,
                ) by {}
                assert(binding_keys(after, i as int) == self.bindings@[i as int].keys@);
            }
            if Self::keys_equal(&self.bindings[i].keys, keys) {
                exact = true;
            }
            if Self::is_shorter_prefix(keys, &self.bindings[i].keys) {
                longer = true;
            }
            proof {
                if has_exact(after, keys@) && !has_exact(before, keys@) {
                    let j = choose|j: int| 0 <= j < after.len() && #[trigger] binding_keys(after, j) == keys@;
                    if j < before.len() {
                        assert(binding_keys(before, j) == keys@);
                    }
                }
                if has_exact(before, keys@) {
                    let j = choose|j: int| 0 <= j < before.len() && #[trigger] binding_keys(before, j) == keys@;
                    assert(binding_keys(after, j) == keys@);
                }
                if has_longer(after, keys@) && !has_longer(before, keys@) {
                    let j = choose|j: int|
                        0 <= j < after.len() && #[trigger] binding_keys(after, j).len() > keys@.len()
                            && binding_keys(after, j).take(keys@.len() as int) == keys@;
                    if j < before.len() {
                        assert(binding_keys(before, j).len() > keys@.len());
                    }
                }
                if has_longer(before, keys@) {
                    let j = choose|j: int|
                        0 <= j < before.len() && #[trigger] binding_keys(before, j).len() > keys@.len()
                            && binding_keys(before, j).take(keys@.len() as int) == keys@;
                    assert(binding_keys(after, j).len() > keys@.len());
                }
            }
            i = i + 1;
        }
        proof {
            assert(self.bindings@.take(self.bindings.len() as int) =~= self.bindings@);
        }
        if exact && longer {
            Some(Answer::PrefixAndMatch)
        } else if exact {
            Some(Answer::Match)
        } else if longer {
            Some(Answer::Prefix)
        } else {
            None
        }
    }

    /// The command bound to exactly the keystrokes `keys`.
    pub fn value(&self, keys: &Vec<KeyEvent>) -> (res: Option<&T>)
        ensures
            match command_for(self.spec_bindings(), keys@) {
                Some(command) => res == Some(&command),
                None => res is None,
            },
    {
        let mut i: usize = 0;
        while i < self.bindings.len()
            invariant
                0 <= i <= self.bindings.len(),
                first_exact(self.bindings@.take(i as int), keys@) is None,
            decreases self.bindings.len() - i,
        {
            proof {
                let t = self.bindings@.take(i + 1);
                assert(t.drop_last() =~= self.bindings@.take(i as int));
            }
            if Self::keys_equal(&self.bindings[i].keys, keys) {
                proof {
                    lemma_first_exact_prefix(self.bindings@, keys@, i + 1);
                }
                return Some(&self.bindings[i].command);
            }
            i = i + 1;
        }
        proof {
            assert(self.bindings@.take(self.bindings.len() as int) =~= self.bindings@);
        }
        None
    }
}

/// Once the first match is found among the first `k` bindings, the later bindings do not
/// change it.
proof fn lemma_first_exact_prefix<T>(bindings: Seq<KeyBinding<T>>, keys: Seq<KeyEvent>, k: int)
    requires
        0 <= k <= bindings.len(),
        first_exact(bindings.take(k), keys) is Some,
    ensures
        first_exact(bindings, keys) == first_exact(bindings.take(k), keys),
    decreases bindings.len() - k,
{
    if k < bindings.len() {
        assert(bindings.take(k + 1).drop_last() =~= bindings.take(k));
        lemma_first_exact_prefix(bindings, keys, k + 1);
    } else {
        assert(bindings.take(k) =~= bindings);
    }
}

} // verus!
