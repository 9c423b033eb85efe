//! An ordered header map with case-insensitive names, duplicates allowed:
//! what travels with an image from its source response to the outgoing one.

use vstd::prelude::*;

verus! {

use vstd::string::StrSliceExecFns;
use vstd::string::StringSliceAdditionalSpecFns;
use vstd::utf8::encode_utf8;

/// The byte string of an owned header name or value.
pub open spec fn sbytes(s: String) -> Seq<u8> {
    encode_utf8(s@)
}

/// A byte lowered for case-insensitive comparison of ASCII header names.
pub open spec fn lower_byte(b: u8) -> u8 {
    if 65 <= b && b <= 90 {
        (b + 32) as u8
    } else {
        b
    }
}

/// Whether two names are equal up to ASCII case.
pub open spec fn ci_eq(a: Seq<u8>, b: Seq<u8>) -> bool {
    a.len() == b.len() && forall|i: int|
        0 <= i < a.len() ==> lower_byte(#[trigger] a[i]) == lower_byte(b[i])
}

/// The entries of `s` whose name is not `name`, up to ASCII case, in order.
pub open spec fn without_key(s: Seq<(Seq<u8>, Seq<u8>)>, name: Seq<u8>) -> Seq<(Seq<u8>, Seq<u8>)>
    decreases s.len(),
{
    if s.len() == 0 {
        Seq::empty()
    } else {
        without_key(s.drop_last(), name) + if ci_eq(s.last().0, name) {
            Seq::empty()
        } else {
            seq![s.last()]
        }
    }
}

/// Whether two names are equal up to ASCII case.
pub fn name_ci_eq(a: &[u8], b: &[u8]) -> (r: bool)
    ensures
        r <==> ci_eq(a@, b@),
{
    let n = a.len();
    if n != b.len() {
        return false;
    }
    let mut i: usize = 0;
    while i < n
        invariant
            i <= n,
            n == a@.len(),
            n == b@.len(),
            forall|j: int| 0 <= j < i ==> lower_byte(#[trigger] a@[j]) == lower_byte(b@[j]),
        decreases n - i,
    {
        let mut ca = a[i];
        let mut cb = b[i];
        if 65 <= ca && ca <= 90 {
            ca = ca + 32;
        }
        if 65 <= cb && cb <= 90 {
            cb = cb + 32;
        }
        if ca != cb {
            return false;
        }
        i += 1;
    }
    true
}

/// An ordered header map: name/value pairs in insertion order, names matched
/// case-insensitively, duplicates allowed.
#[derive(Clone, Debug)]
pub struct Headers {
    pub entries: Vec<(String, String)>,
}

impl View for Headers {
    type V = Seq<(Seq<u8>, Seq<u8>)>;

    open spec fn view(&self) -> Seq<(Seq<u8>, Seq<u8>)> {
        self.entries@.map(|i: int, e: (String, String)| (sbytes(e.0), sbytes(e.1)))
    }
}

impl Headers {
    /// An empty header map.
    pub fn new() -> (r: Headers)
        ensures
            r@ =~= Seq::<(Seq<u8>, Seq<u8>)>::empty(),
    {
        Headers { entries: Vec::new() }
    }

    /// Appends one entry, keeping everything already there.
    pub fn append(&mut self, name: String, value: String)
        ensures
            final(self)@ =~= old(self)@.push((sbytes(name), sbytes(value))),
    {
        self.entries.push((name, value));
    }

    /// Removes every entry whose name matches, up to ASCII case; the rest
    /// keep their order.
    pub fn delete(&mut self, name: &str)
        ensures
            final(self)@ == without_key(old(self)@, name.spec_bytes()),
    {
        let n = self.entries.len();
        let mut kept: Vec<(String, String)> = Vec::new();
        let mut i: usize = 0;
        while i < n
            invariant
                i <= n,
                n == self.entries@.len(),
                kept@.map(|k: int, e: (String, String)| (sbytes(e.0), sbytes(e.1))) =~= without_key(
                    self@.take(i as int),
                    name.spec_bytes(),
                ),
            decreases n - i,
        {
            let ghost prefix = self@.take(i as int);
            let ghost prev = kept@;
            let ek = self.entries[i].0.clone();
            let ev = self.entries[i].1.clone();
            proof {
                assert(self@.take(i + 1).drop_last() =~= prefix);
                assert(self@.take(i + 1).last() == self@[i as int]);
            }
            let matched = name_ci_eq(ek.as_str().as_bytes(), name.as_bytes());
            proof {
                assert(sbytes(self.entries@[i as int].0) == self@[i as int].0);
                assert(sbytes(ek) == self@[i as int].0);
                assert(sbytes(ev) == self@[i as int].1);
            }
            if !matched {
                kept.push((ek, ev));
                proof {
                    assert(kept@.map(|k: int, e: (String, String)| (sbytes(e.0), sbytes(e.1)))
                        =~= prev.map(|k: int, e: (String, String)| (sbytes(e.0), sbytes(e.1))).push(
                        self@[i as int],
                    ));
                }
            }
            i += 1;
        }
        proof {
            assert(self@.take(n as int) =~= self@);
        }
        self.entries = kept;
    }

    /// Sets a name to a single value: removes every entry matching the name,
    /// up to ASCII case, then appends the new entry.
    pub fn set(&mut self, name: &str, value: &str)
        ensures
            final(self)@ =~= without_key(old(self)@, name.spec_bytes()).push(
                (name.spec_bytes(), value.spec_bytes()),
            ),
    {
        self.delete(name);
        let n = name.to_owned();
        let v = value.to_owned();
        self.append(n, v);
    }

    /// The number of entries.
    pub fn len(&self) -> (r: usize)
        ensures
            r == self@.len(),
    {
        self.entries.len()
    }
}

} // verus!
