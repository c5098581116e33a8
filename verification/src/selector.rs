//! The selector resolver.
//!
//! A method's 4-byte selector is the first four bytes of the digest of its
//! canonical signature: the method name followed by the parenthesized,
//! comma-joined canonical names of its argument types. Composite argument
//! types are named recursively with the same parenthesized form, so the
//! separators `(`, `,`, `)` are structural and never part of a leaf name.

use vstd::prelude::*;
use crate::hash::{digest_of, family_digest, HashFamily};

verus! {

/// The first four digest bytes packed big-endian into one word.
pub open spec fn selector_pack(d: Seq<u8>) -> u32
    recommends
        d.len() >= 4,
{
    ((d[0] as u32) << 24) | ((d[1] as u32) << 16) | ((d[2] as u32) << 8) | (d[3] as u32)
}

/// The selector of the canonical signature `sig` under `family`.
pub open spec fn selector_of(family: HashFamily, sig: Seq<char>) -> u32 {
    selector_pack(digest_of(family, sig))
}

/// The comma-joined form of a list of canonical type names.
pub open spec fn join_types(args: Seq<Seq<char>>) -> Seq<char>
    decreases args.len(),
{
    if args.len() == 0 {
        Seq::empty()
    } else if args.len() == 1 {
        args[0]
    } else {
        args[0] + seq![','] + join_types(args.drop_first())
    }
}

/// The canonical name of a composite type built from the canonical names
/// of its elements.
pub open spec fn tuple_name_of(elems: Seq<Seq<char>>) -> Seq<char> {
    seq!['('] + join_types(elems) + seq![')']
}

/// The canonical signature of a method: its name followed by the
/// parenthesized list of its argument types' canonical names.
pub open spec fn signature_of(name: Seq<char>, args: Seq<Seq<char>>) -> Seq<char> {
    name + tuple_name_of(args)
}

proof fn lemma_join_push(args: Seq<Seq<char>>, last: Seq<char>)
    requires
        args.len() >= 1,
    ensures
        join_types(args.push(last)) == join_types(args) + seq![','] + last,
    decreases args.len(),
{
    if args.len() == 1 {
        assert(args.push(last).drop_first() =~= seq![last]);
        assert(seq![last].len() == 1 && seq![last][0] == last);
        assert(join_types(seq![last]) == last);
        assert(args.push(last)[0] == args[0]);
        assert(join_types(args.push(last)) == args[0] + seq![','] + last);
        assert(join_types(args) + seq![','] + last == args[0] + seq![','] + last);
    } else {
        assert(args.push(last).drop_first() =~= args.drop_first().push(last));
        lemma_join_push(args.drop_first(), last);
        assert(join_types(args.push(last)) =~= join_types(args) + seq![','] + last);
    }
}

/// The canonical name of a composite type: `(` + the comma-joined element
/// names + `)`.
pub fn tuple_type_name(elems: &Vec<String>) -> (r: String)
    ensures
        r@ == tuple_name_of(elems.deep_view()),
{
    let mut out = String::new();
    out.append("(");
    proof {
        reveal_strlit("(");
        assert(out@ =~= seq!['(']);
    }
    let n = elems.len();
    let mut i: usize = 0;
    while i < n
        invariant
            n == elems.len(),
            i <= n,
            out@ == seq!['('] + join_types(elems.deep_view().take(i as int)),
        decreases n - i,
    {
        if i > 0 {
            out.append(",");
            proof {
                reveal_strlit(",");
            }
        }
        out.append(elems[i].as_str());
        proof {
            let prefix = elems.deep_view().take(i as int);
            assert(elems.deep_view().take(i + 1 as int) =~= prefix.push(elems.deep_view()[i as int]));
            if i > 0 {
                lemma_join_push(prefix, elems.deep_view()[i as int]);
            } else {
                assert(prefix.push(elems.deep_view()[i as int]) =~= seq![elems.deep_view()[i as int]]);
            }
            assert(out@ =~= seq!['('] + join_types(elems.deep_view().take(i + 1 as int)));
        }
        i = i + 1;
    }
    proof {
        assert(elems.deep_view().take(n as int) =~= elems.deep_view());
    }
    out.append(")");
    proof {
        reveal_strlit(")");
        assert(out@ =~= tuple_name_of(elems.deep_view()));
    }
    out
}

/// The canonical signature string of a method.
pub fn build_signature(name: &str, args: &Vec<String>) -> (r: String)
    ensures
        r@ == signature_of(name@, args.deep_view()),
{
    let mut sig = String::new();
    sig.append(name);
    let tuple = tuple_type_name(args);
    sig.append(tuple.as_str());
    proof {
        assert(sig@ =~= signature_of(name@, args.deep_view()));
    }
    sig
}

/// The 4-byte selector of the method `name` with argument types `args`
/// (canonical names, in order) under the chosen hash family.
pub fn compute_selector(family: HashFamily, name: &str, args: &Vec<String>) -> (r: u32)
    ensures
        r == selector_of(family, signature_of(name@, args.deep_view())),
{
    let sig = build_signature(name, args);
    let d = family_digest(family, sig.as_str());
    ((d[0] as u32) << 24) | ((d[1] as u32) << 16) | ((d[2] as u32) << 8) | (d[3] as u32)
}

/// Law: selector computation is deterministic. Re-computing the selector of
/// the same (name, ordered argument types) pair under the same hash family
/// always yields the same value.
pub proof fn lemma_selector_deterministic(
    family: HashFamily,
    name1: Seq<char>,
    args1: Seq<Seq<char>>,
    name2: Seq<char>,
    args2: Seq<Seq<char>>,
)
    requires
        name1 == name2,
        args1 == args2,
    ensures
        selector_of(family, signature_of(name1, args1)) == selector_of(
            family,
            signature_of(name2, args2),
        ),
{
}

} // verus!
