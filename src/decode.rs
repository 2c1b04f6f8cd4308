use vstd::prelude::*;
use crate::cursor::{decodes, sp_int, BaseParser, ParseError, Step};
use crate::data::views;

verus! {

/// A decoder of one kind of record, with the spec-level decoder that it implements.
pub trait Decoder {
    type Out: View;

    spec fn spec_decode(&self, d: Seq<u8>, i: int) -> Step<<Self::Out as View>::V>;

    /// What holds of every record this decoder returns, beyond its view.
    spec fn valid(&self, x: Self::Out) -> bool;

    fn decode(&self, p: &mut BaseParser<'_>) -> (r: Result<Self::Out, ParseError>)
        requires
            old(p).wf(),
        ensures
            final(p).wf(),
            final(p).data@ == old(p).data@,
            decodes(r, self.spec_decode(old(p).data@, old(p).pos as int), final(p).pos as int),
            r is Ok ==> self.valid(r->Ok_0);
}

/// `n` records one after another.
pub open spec fn sp_items<D: Decoder>(dec: D, d: Seq<u8>, i: int, n: nat) -> Step<Seq<<D::Out as View>::V>>
    decreases n,
{
    if n == 0 {
        Ok((Seq::empty(), i))
    } else {
        match sp_items(dec, d, i, (n - 1) as nat) {
            Ok((xs, j)) => match dec.spec_decode(d, j) {
                Ok((x, k)) => Ok((xs.push(x), k)),
                Err(e) => Err(e),
            },
            Err(e) => Err(e),
        }
    }
}

/// Once a record fails, every longer run of records fails with the same error.
pub proof fn lemma_items_err<D: Decoder>(dec: D, d: Seq<u8>, i: int, k: nat, n: nat)
    requires
        k <= n,
        sp_items(dec, d, i, k) is Err,
    ensures
        sp_items(dec, d, i, n) == sp_items(dec, d, i, k),
    decreases n,
{
    if k < n {
        lemma_items_err(dec, d, i, k, (n - 1) as nat);
    }
}

/// A list: a 32-bit count, which must not be negative, then that many records.
pub open spec fn sp_list<D: Decoder>(dec: D, d: Seq<u8>, i: int) -> Step<Seq<<D::Out as View>::V>> {
    match sp_int(d, i) {
        Ok((n, j)) => if n < 0 {
            Err(ParseError::InvalidEncoding)
        } else {
            sp_items(dec, d, j, n as nat)
        },
        Err(e) => Err(e),
    }
}

/// `r` (with `pos` the cursor position afterwards) is the list that `s` describes.
pub open spec fn decodes_all<T: View>(r: Result<Vec<T>, ParseError>, s: Step<Seq<T::V>>, pos: int) -> bool {
    match s {
        Ok((v, j)) => r is Ok && views(r->Ok_0@) == v && pos == j,
        Err(e) => r is Err && r->Err_0 == e,
    }
}

impl<'a> BaseParser<'a> {
    /// A list of records, each read by `dec`; see `sp_list`.
    pub fn parse_list<D: Decoder>(&mut self, dec: &D) -> (r: Result<Vec<D::Out>, ParseError>)
        requires
            old(self).wf(),
        ensures
            final(self).wf(),
            final(self).data@ == old(self).data@,
            decodes_all(r, sp_list(*dec, old(self).data@, old(self).pos as int), final(self).pos as int),
            r is Ok ==> forall|t: int| 0 <= t < r->Ok_0@.len() ==> dec.valid(#[trigger] r->Ok_0@[t]),
    {
        let ghost d = self.data@;
        let amount = self.parse_int()?;
        if amount < 0 {
            return Err(ParseError::InvalidEncoding);
        }
        let ghost j0 = self.pos as int;
        let mut result: Vec<D::Out> = Vec::new();
        let mut k: i32 = 0;
        assert(views(result@) =~= Seq::<<D::Out as View>::V>::empty());
        while k < amount
            invariant
                self.wf(),
                self.data@ == d,
                d == old(self).data@,
                sp_int(d, old(self).pos as int) == Step::<i32>::Ok((amount, j0)),
                0 <= k <= amount,
                sp_items(*dec, d, j0, k as nat) == Step::<Seq<<D::Out as View>::V>>::Ok((views(result@), self.pos as int)),
                forall|t: int| 0 <= t < result@.len() ==> dec.valid(#[trigger] result@[t]),
            decreases amount - k,
        {
            let x = match dec.decode(self) {
                Ok(x) => x,
                Err(e) => {
                    proof {
                        lemma_items_err(*dec, d, j0, (k + 1) as nat, amount as nat);
                    }
                    return Err(e);
                },
            };
            proof {
                assert(views(result@.push(x)) =~= views(result@).push(x@));
            }
            result.push(x);
            k = k + 1;
        }
        Ok(result)
    }
}

} // verus!
