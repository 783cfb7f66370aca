use vstd::prelude::*;

use super::assembly_instruction::{
    encode_record, fits_word, lemma_word_length, AssemblyInstruction, RecordView,
};
use super::symbols::{SymbolInfo, SymbolTable};
use super::AssemblerError;

verus! {

/// A parsed program: its records in source order. The order fixes each
/// record's byte offset, 4 bytes per record.
#[derive(Debug, PartialEq)]
pub struct Program {
    pub instructions: Vec<AssemblyInstruction>,
}

pub open spec fn records_view(v: Seq<AssemblyInstruction>) -> Seq<RecordView> {
    v.map_values(|r: AssemblyInstruction| r@)
}

impl View for Program {
    type V = Seq<RecordView>;

    open spec fn view(&self) -> Seq<RecordView> {
        records_view(self.instructions@)
    }
}

/// The code of a program: the words of its records in order, or the error
/// of the first record that cannot be encoded, with that record's index.
pub open spec fn encode_program(p: Seq<RecordView>, labels: Map<Seq<char>, SymbolInfo>) -> Result<
    Seq<u8>,
    AssemblerError,
>
    decreases p.len(),
{
    if p.len() == 0 {
        Ok(Seq::empty())
    } else {
        match encode_program(p.drop_last(), labels) {
            Err(e) => Err(e),
            Ok(b) => match encode_record(p.last(), labels) {
                Err(e) => Err(AssemblerError::Encode { index: (p.len() - 1) as usize, error: e }),
                Ok(w) => Ok(b + w),
            },
        }
    }
}

impl Program {
    /// Encodes every record in order (see `encode_program`).
    pub fn to_bytes(&self, st: &SymbolTable) -> (r: Result<Vec<u8>, AssemblerError>)
        requires
            st.wf(),
        ensures
            match encode_program(self@, st@) {
                Ok(b) => r is Ok && r->Ok_0@ == b,
                Err(e) => r == Err::<Vec<u8>, AssemblerError>(e),
            },
    {
        let mut result: Vec<u8> = Vec::new();
        let mut i: usize = 0;
        while i < self.instructions.len()
            invariant
                st.wf(),
                i <= self.instructions.len(),
                encode_program(self@.take(i as int), st@) == Ok::<Seq<u8>, AssemblerError>(result@),
            decreases self.instructions.len() - i,
        {
            proof {
                assert(self@.take(i + 1).drop_last() =~= self@.take(i as int));
            }
            match self.instructions[i].to_bytes(st) {
                Ok(mut w) => {
                    result.append(&mut w);
                },
                Err(e) => {
                    proof {
                        assert(self@.take(i + 1) =~= self@.take(i + 1));
                        assert(encode_program(self@.take(i + 1), st@) is Err);
                        lemma_encode_error_stays(self@, st@, i as int + 1);
                    }
                    return Err(AssemblerError::Encode { index: i, error: e });
                },
            }
            i = i + 1;
        }
        proof {
            assert(self@.take(i as int) =~= self@);
        }
        Ok(result)
    }
}

/// Once a prefix of a program fails to encode, so does the whole program,
/// with the same error.
pub proof fn lemma_encode_error_stays(p: Seq<RecordView>, labels: Map<Seq<char>, SymbolInfo>, n: int)
    requires
        0 <= n <= p.len(),
        encode_program(p.take(n), labels) is Err,
    ensures
        encode_program(p, labels) == encode_program(p.take(n), labels),
    decreases p.len() - n,
{
    if n < p.len() {
        assert(p.take(n + 1).drop_last() =~= p.take(n));
        lemma_encode_error_stays(p, labels, n + 1);
    } else {
        assert(p.take(n) =~= p);
    }
}

/// The code of a program of word-fitting records is one word per record:
/// record `k` is encoded at bytes `4k .. 4k + 4`.
pub proof fn lemma_program_words(p: Seq<RecordView>, labels: Map<Seq<char>, SymbolInfo>)
    requires
        encode_program(p, labels) is Ok,
        forall|k: int| 0 <= k < p.len() ==> fits_word(#[trigger] p[k]),
    ensures
        ({
            let code = encode_program(p, labels)->Ok_0;
            &&& code.len() == 4 * p.len()
            &&& forall|k: int|
                0 <= k < p.len() ==> #[trigger] code.subrange(4 * k, 4 * k + 4) == encode_record(
                    p[k],
                    labels,
                )->Ok_0
        }),
    decreases p.len(),
{
    if p.len() > 0 {
        let q = p.drop_last();
        assert forall|k: int| 0 <= k < q.len() implies fits_word(#[trigger] q[k]) by {
            assert(q[k] == p[k]);
        }
        lemma_program_words(q, labels);
        lemma_word_length(p.last(), labels);
        let b = encode_program(q, labels)->Ok_0;
        let w = encode_record(p.last(), labels)->Ok_0;
        let code = encode_program(p, labels)->Ok_0;
        assert(code == b + w);
        assert forall|k: int| 0 <= k < p.len() implies #[trigger] code.subrange(4 * k, 4 * k + 4)
            == encode_record(p[k], labels)->Ok_0 by {
            if k < q.len() {
                assert(q[k] == p[k]);
                assert(code.subrange(4 * k, 4 * k + 4) =~= b.subrange(4 * k, 4 * k + 4));
            } else {
                assert(code.subrange(4 * k, 4 * k + 4) =~= w);
            }
        }
    }
}

} // verus!
