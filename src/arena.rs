use vstd::prelude::*;

use crate::cell::HeritableData;
use crate::gene::Gene;

verus! {

/// The abstract arena: one header per record, and the records' genes one
/// after the other, `genome_length` of them per record.
pub struct ArenaView {
    pub genome_length: nat,
    pub headers: Seq<HeritableData>,
    pub genes: Seq<Gene>,
}

impl ArenaView {
    pub open spec fn wf(self) -> bool {
        self.genes.len() == self.headers.len() * self.genome_length
    }

    pub open spec fn len(self) -> nat {
        self.headers.len()
    }

    /// The genome of record `i`.
    pub open spec fn genome(self, i: int) -> Seq<Gene> {
        self.genes.subrange(i * self.genome_length, i * self.genome_length + self.genome_length)
    }

    /// Both arenas have the same number of records of the same genome length.
    pub open spec fn same_shape(self, other: ArenaView) -> bool {
        self.len() == other.len() && self.genome_length == other.genome_length
    }
}

/// Record `i` of `n` records of length `l` lies inside `n * l` genes, apart from
/// every other record.
pub proof fn lemma_record_bounds(n: int, l: int, i: int, j: int)
    requires
        0 <= i < n,
        0 <= j < n,
        l >= 0,
    ensures
        0 <= i * l,
        i * l + l <= n * l,
        i != j ==> (j * l + l <= i * l || i * l + l <= j * l),
{
    assert(0 <= i * l) by (nonlinear_arith)
        requires 0 <= i, l >= 0;
    assert(i * l + l <= n * l) by (nonlinear_arith)
        requires i < n, l >= 0;
    if j < i {
        assert(j * l + l <= i * l) by (nonlinear_arith)
            requires j < i, l >= 0;
    } else if i < j {
        assert(i * l + l <= j * l) by (nonlinear_arith)
            requires i < j, l >= 0;
    }
}

/// Each record of a well-formed arena holds exactly `genome_length` genes.
pub proof fn lemma_genome_len(a: ArenaView, i: int)
    requires
        a.wf(),
        0 <= i < a.len(),
    ensures
        a.genome(i).len() == a.genome_length,
{
    lemma_record_bounds(a.len() as int, a.genome_length as int, i, i);
}

/// Heritable data of a whole population in one contiguous store: a fixed
/// header per record followed, in a second store, by exactly `genome_length`
/// genes per record. No record owns an allocation of its own.
pub struct HeritableArena {
    genome_length: usize,
    headers: Vec<HeritableData>,
    genes: Vec<Gene>,
}

impl View for HeritableArena {
    type V = ArenaView;

    closed spec fn view(&self) -> ArenaView {
        ArenaView {
            genome_length: self.genome_length as nat,
            headers: self.headers@,
            genes: self.genes@,
        }
    }
}

impl HeritableArena {
    /// An arena of `count` records, each with a zero header and zero genes, to be
    /// written record by record before it is read.
    pub fn new(genome_length: usize, count: usize) -> (r: HeritableArena)
        requires
            count * genome_length <= usize::MAX,
        ensures
            r@.wf(),
            r@.len() == count,
            r@.genome_length == genome_length,
            forall|i: int| 0 <= i < count ==> r@.headers[i].period() == 0,
            forall|k: int| 0 <= k < r@.genes.len() ==> r@.genes[k] == (Gene { gene: 0 }),
    {
        let zero = HeritableData::new(0);
        let headers: Vec<HeritableData> = vec![zero; count];
        let genes: Vec<Gene> = vec![Gene { gene: 0 }; count * genome_length];
        HeritableArena { genome_length, headers, genes }
    }

    pub fn len(&self) -> (r: usize)
        ensures
            r == self@.len(),
    {
        self.headers.len()
    }

    pub fn genome_length(&self) -> (r: usize)
        ensures
            r == self@.genome_length,
    {
        self.genome_length
    }

    pub fn get_header(&self, index: usize) -> (r: HeritableData)
        requires
            index < self@.len(),
        ensures
            r == self@.headers[index as int],
    {
        self.headers[index]
    }

    /// The genome of a record, in place.
    pub fn get_genome(&self, index: usize) -> (r: &[Gene])
        requires
            self@.wf(),
            index < self@.len(),
        ensures
            r@ == self@.genome(index as int),
    {
        let l = self.genome_length;
        let total = self.genes.len();
        proof {
            lemma_record_bounds(self@.len() as int, l as int, index as int, index as int);
        }
        vstd::slice::slice_subrange(self.genes.as_slice(), index * l, index * l + l)
    }

    pub fn write_header(&mut self, index: usize, header: HeritableData)
        requires
            index < old(self)@.len(),
        ensures
            final(self)@ == (ArenaView {
                headers: old(self)@.headers.update(index as int, header),
                ..old(self)@
            }),
    {
        self.headers.set(index, header);
    }

    /// Writes gene `k` of record `index`; every other gene stays.
    pub fn write_gene(&mut self, index: usize, k: usize, gene: Gene)
        requires
            old(self)@.wf(),
            index < old(self)@.len(),
            k < old(self)@.genome_length,
        ensures
            final(self)@.wf(),
            final(self)@.headers == old(self)@.headers,
            final(self)@.genome_length == old(self)@.genome_length,
            final(self)@.genome(index as int) == old(self)@.genome(index as int).update(
                k as int,
                gene,
            ),
            forall|j: int|
                0 <= j < old(self)@.len() && j != index ==> final(self)@.genome(j) == old(
                    self,
                )@.genome(j),
    {
        let l = self.genome_length;
        let total = self.genes.len();
        let ghost n = self@.len() as int;
        proof {
            lemma_record_bounds(n, l as int, index as int, index as int);
        }
        let pos = index * l + k;
        self.genes.set(pos, gene);
        proof {
            let o = old(self)@;
            let f = self@;
            assert(f.genome(index as int) =~= o.genome(index as int).update(k as int, gene));
            assert forall|j: int| 0 <= j < n && j != index implies f.genome(j) == o.genome(j) by {
                lemma_record_bounds(n, l as int, index as int, j);
                lemma_record_bounds(n, l as int, j, j);
                assert(f.genome(j) =~= o.genome(j));
            }
        }
    }

    /// Exchanges the contents of two arenas without copying a record.
    pub fn swap(&mut self, other: &mut HeritableArena)
        ensures
            (final(self)@, final(other)@) == swapped(old(self)@, old(other)@),
    {
        std::mem::swap(self, other);
    }
}

/// What two arenas hold after an exchange.
pub open spec fn swapped(a: ArenaView, b: ArenaView) -> (ArenaView, ArenaView) {
    (b, a)
}

/// Two exchanges in a row give both arenas back their own records.
pub proof fn lemma_swap_round_trip(a: ArenaView, b: ArenaView)
    ensures
        swapped(swapped(a, b).0, swapped(a, b).1) == (a, b),
{
}

} // verus!
