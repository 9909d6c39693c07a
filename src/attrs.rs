//! Configuration attributes attached to a record or to one of its fields.
//!
//! Only the first attribute whose path is `builder` is consulted; its argument
//! list, once split by the host parser, is a sequence of bare words
//! (`default`, `mandatory`), `key = value` pairs (`default = 10`) and nested
//! lists, which carry no meaning here.
use vstd::prelude::*;
use vstd::string::*;

verus! {

/// One comma-separated argument of a configuration attribute.
pub enum AttrArg {
    /// A bare word such as `default`.
    Word(String),
    /// A `key = value` pair; the value is kept as source text.
    Assign(String, String),
    /// A nested list such as `key(...)`.
    List,
}

/// An attribute: its path, and its arguments when they form a comma-separated
/// list (`None` when they could not be split that way).
pub struct Attr {
    pub path: String,
    pub args: Option<Vec<AttrArg>>,
}

/// The path that marks a configuration attribute.
pub open spec fn builder_path() -> Seq<char> {
    "builder"@
}

/// The arguments of the first `builder` attribute, or none at all when there is
/// no such attribute or its arguments could not be split.
pub open spec fn builder_args(attrs: Seq<Attr>) -> Seq<AttrArg>
    decreases attrs.len(),
{
    if attrs.len() == 0 {
        Seq::empty()
    } else if attrs[0].path@ == builder_path() {
        match attrs[0].args {
            Some(v) => v@,
            None => Seq::empty(),
        }
    } else {
        builder_args(attrs.drop_first())
    }
}

pub open spec fn is_word(a: AttrArg, key: Seq<char>) -> bool {
    match a {
        AttrArg::Word(w) => w@ == key,
        _ => false,
    }
}

/// Whether the bare word `key` is among the arguments.
pub open spec fn has_word(args: Seq<AttrArg>, key: Seq<char>) -> bool {
    exists|i: int| 0 <= i < args.len() && #[trigger] is_word(args[i], key)
}

/// The value of the first `key = value` pair among the arguments.
pub open spec fn value_of(args: Seq<AttrArg>, key: Seq<char>) -> Option<Seq<char>>
    decreases args.len(),
{
    if args.len() == 0 {
        None
    } else {
        match args[0] {
            AttrArg::Assign(k, v) if k@ == key => Some(v@),
            _ => value_of(args.drop_first(), key),
        }
    }
}

/// The arguments of the first `builder` attribute among `attrs`.
fn find_builder_args(attrs: &Vec<Attr>) -> (r: Option<&Vec<AttrArg>>)
    ensures
        match r {
            Some(v) => v@ == builder_args(attrs@),
            None => builder_args(attrs@) == Seq::<AttrArg>::empty(),
        },
{
    let word = String::from_str("builder");
    proof {
        reveal_strlit("builder");
        assert(attrs@.skip(0) =~= attrs@);
    }
    let mut i: usize = 0;
    while i < attrs.len()
        invariant
            0 <= i <= attrs.len(),
            word@ == builder_path(),
            builder_args(attrs@) == builder_args(attrs@.skip(i as int)),
        decreases attrs.len() - i,
    {
        assert(attrs@.skip(i as int).drop_first() =~= attrs@.skip(i + 1));
        if attrs[i].path == word {
            return match &attrs[i].args {
                Some(v) => Some(v),
                None => None,
            };
        }
        i = i + 1;
    }
    None
}

/// Whether the first `builder` attribute holds the bare word `key`.
pub fn has_attr_path(attrs: &Vec<Attr>, key: &str) -> (r: bool)
    ensures
        r == has_word(builder_args(attrs@), key@),
{
    let args = match find_builder_args(attrs) {
        Some(v) => v,
        None => {
            return false;
        },
    };
    let k = String::from_str(key);
    let mut i: usize = 0;
    while i < args.len()
        invariant
            0 <= i <= args.len(),
            args@ == builder_args(attrs@),
            k@ == key@,
            forall|j: int| 0 <= j < i ==> !is_word(#[trigger] args@[j], key@),
        decreases args.len() - i,
    {
        match &args[i] {
            AttrArg::Word(w) => {
                if *w == k {
                    assert(is_word(args@[i as int], key@));
                    return true;
                }
            },
            _ => {},
        }
        i = i + 1;
    }
    false
}

/// The value of the first `key = value` pair of the first `builder` attribute.
pub fn get_attr_value(attrs: &Vec<Attr>, key: &str) -> (r: Option<String>)
    ensures
        match r {
            Some(s) => value_of(builder_args(attrs@), key@) == Some(s@),
            None => value_of(builder_args(attrs@), key@) is None,
        },
{
    let args = match find_builder_args(attrs) {
        Some(v) => v,
        None => {
            return None;
        },
    };
    let k = String::from_str(key);
    assert(args@.skip(0) =~= args@);
    let mut i: usize = 0;
    while i < args.len()
        invariant
            0 <= i <= args.len(),
            args@ == builder_args(attrs@),
            k@ == key@,
            value_of(args@, key@) == value_of(args@.skip(i as int), key@),
        decreases args.len() - i,
    {
        assert(args@.skip(i as int).drop_first() =~= args@.skip(i + 1));
        match &args[i] {
            AttrArg::Assign(name, value) => {
                if *name == k {
                    return Some(value.clone());
                }
            },
            _ => {},
        }
        i = i + 1;
    }
    None
}

} // verus!
