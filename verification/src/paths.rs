//! What the library knows of output paths: their text and their extension.

use crate::text::{
    chars_of, equal_letters, lower_all, lower_chars, same_letters, same_text, text_of,
};
use vstd::prelude::*;
use vstd::slice::slice_subrange;

verus! {

/// The extension of a path.
#[derive(Debug)]
pub enum Extension {
    /// The path has no extension.
    Missing,
    /// The extension is no Unicode text.
    Unreadable,
    Known(String),
}

/// What an extension is.
pub enum Suffix {
    Missing,
    Unreadable,
    Known(Seq<char>),
}

impl View for Extension {
    type V = Suffix;

    open spec fn view(&self) -> Suffix {
        match self {
            Extension::Missing => Suffix::Missing,
            Extension::Unreadable => Suffix::Unreadable,
            Extension::Known(text) => Suffix::Known(text@),
        }
    }
}

impl Clone for Extension {
    fn clone(&self) -> (r: Self)
        ensures
            r@ == self@,
    {
        match self {
            Extension::Missing => Extension::Missing,
            Extension::Unreadable => Extension::Unreadable,
            Extension::Known(text) => Extension::Known(text.clone()),
        }
    }
}

impl Suffix {
    /// The extension in lower case, where there is one that can be read.
    pub open spec fn lower(self) -> Option<Seq<char>> {
        match self {
            Suffix::Known(text) => Some(lower_all(text)),
            _ => None,
        }
    }

    /// Whether the extension is the given one but for the case of ASCII letters.
    pub open spec fn same_as(self, text: Seq<char>) -> bool {
        match self {
            Suffix::Known(own) => same_letters(own, text),
            _ => false,
        }
    }
}

impl Extension {
    pub fn is_missing(&self) -> (r: bool)
        ensures
            r == (self@ is Missing),
    {
        match self {
            Extension::Missing => true,
            _ => false,
        }
    }

    /// The extension in lower case, where there is one that can be read.
    pub fn lower(&self) -> (r: Option<String>)
        ensures
            match self@.lower() {
                Some(text) => r is Some && r->0@ == text,
                None => r is None,
            },
    {
        match self {
            Extension::Known(text) => {
                let chars = chars_of(text.as_str());
                let lowered = lower_chars(chars.as_slice());
                Some(text_of(lowered.as_slice()))
            },
            _ => None,
        }
    }

    /// Whether the extension is the given one but for the case of ASCII letters.
    pub fn same_as(&self, text: &str) -> (r: bool)
        ensures
            r == self@.same_as(text@),
    {
        match self {
            Extension::Known(own) => {
                let left = chars_of(own.as_str());
                let right = chars_of(text);
                equal_letters(left.as_slice(), right.as_slice())
            },
            _ => false,
        }
    }
}

/// The place of the last dot of a name; -1 where there is none.
pub open spec fn last_dot(name: Seq<char>) -> int
    decreases name.len(),
{
    if name.len() == 0 {
        -1
    } else if name.last() == '.' {
        name.len() - 1
    } else {
        last_dot(name.drop_last())
    }
}

/// The extension of a file name: what stands behind its last dot. A dot at the beginning begins no
/// extension, and the parent directory has none.
pub open spec fn name_extension(name: Seq<char>) -> Suffix {
    let dot = last_dot(name);
    if dot <= 0 || name == ".."@ {
        Suffix::Missing
    } else {
        Suffix::Known(name.skip(dot + 1))
    }
}

/// The extension of a file name.
pub fn extension_of_name(name: &str) -> (r: Extension)
    ensures
        r@ == name_extension(name@),
{
    if same_text(name, "..") {
        return Extension::Missing;
    }
    let chars = chars_of(name);
    let mut i: usize = chars.len();
    assert(chars@.take(i as int) =~= chars@);
    while i > 0
        invariant
            i <= chars@.len(),
            chars@ == name@,
            name@ != ".."@,
            last_dot(chars@.take(i as int)) == last_dot(name@),
        decreases i,
    {
        let ghost head = chars@.take(i as int);
        assert(head.last() == chars@[i - 1]);
        if chars[i - 1] == '.' {
            if i == 1 {
                return Extension::Missing;
            }
            let rest = slice_subrange(chars.as_slice(), i, chars.len());
            assert(rest@ =~= name@.skip(i as int));
            return Extension::Known(text_of(rest));
        }
        assert(head.drop_last() =~= chars@.take(i - 1));
        i -= 1;
    }
    Extension::Missing
}

proof fn lemma_last_dot(stem: Seq<char>, ext: Seq<char>)
    requires
        forall|i: int| 0 <= i < ext.len() ==> ext[i] != '.',
    ensures
        last_dot(stem.push('.') + ext) == stem.len(),
    decreases ext.len(),
{
    let name = stem.push('.') + ext;
    if ext.len() == 0 {
        assert(name =~= stem.push('.'));
    } else {
        assert(name.last() == ext.last());
        assert(name.drop_last() =~= stem.push('.') + ext.drop_last());
        lemma_last_dot(stem, ext.drop_last());
    }
}

proof fn lemma_no_dot(name: Seq<char>)
    requires
        forall|i: int| 0 <= i < name.len() ==> name[i] != '.',
    ensures
        last_dot(name) == -1,
    decreases name.len(),
{
    if name.len() > 0 {
        assert(name.last() == name[name.len() - 1]);
        lemma_no_dot(name.drop_last());
    }
}

/// The extension of a name is what stands behind its last dot; a name without a dot has none, and neither
/// has one whose only dot begins it.
#[verifier::spinoff_prover]
#[verifier::rlimit(60)]
pub proof fn extensions_stand_behind_the_last_dot(stem: Seq<char>, ext: Seq<char>)
    requires
        forall|i: int| 0 <= i < ext.len() ==> ext[i] != '.',
    ensures
        stem.len() > 0 && !(stem == seq!['.'] && ext.len() == 0) ==> name_extension(stem.push('.') + ext)
            == Suffix::Known(ext),
        name_extension(ext) is Missing,
        name_extension(seq!['.'] + ext) is Missing,
{
    reveal_strlit("..");
    let name = stem.push('.') + ext;
    lemma_last_dot(stem, ext);
    lemma_no_dot(ext);
    lemma_last_dot(Seq::empty(), ext);
    assert(Seq::<char>::empty().push('.') =~= seq!['.']);
    if name == ".."@ && stem.len() > 0 {
        assert(name.len() == 2);
        assert(stem.len() == 1 && ext.len() == 0);
        assert(name[0] == stem[0]);
        assert(stem =~= seq!['.']);
    }
    assert(name.skip(stem.len() as int + 1) =~= ext);
}

} // verus!
