//! Structural validation of a token's block chain: block indexing, symbol
//! table merging, and the sealed-token append rule.

use vstd::prelude::*;

use crate::errors::InvalidBlockIndex;
use crate::errors::Token;

verus! {

/// One signed, append-only segment of a token's chain; the first is the
/// authority block. Only what the structural checks read is modeled: the
/// index the block declares and the symbol identifiers it introduces.
#[derive(Clone, Debug, PartialEq, Eq)]
pub struct Block {
    /// The zero-based chain position this block declares for itself.
    pub index: u32,
    /// The symbol identifiers this block introduces, in declared order.
    pub symbols: Vec<String>,
}

/// The character sequences of a list of strings, in order.
pub open spec fn string_views(v: Seq<String>) -> Seq<Seq<char>> {
    v.map_values(|s: String| s@)
}

impl Block {
    /// The symbol identifiers this block declares, as character sequences.
    pub open spec fn symbol_views(self) -> Seq<Seq<char>> {
        string_views(self.symbols@)
    }
}

/// Every block's declared index equals its position in the chain.
pub open spec fn indices_valid(blocks: Seq<Block>) -> bool {
    forall|i: int| 0 <= i < blocks.len() ==> (#[trigger] blocks[i]).index == i
}

/// The error reported for a block declaring `declared` at chain position
/// `position`: the authority block's violation has its own variant.
pub open spec fn index_mismatch_error(position: int, declared: u32) -> Token {
    if position == 0 {
        Token::InvalidAuthorityIndex(declared)
    } else {
        Token::InvalidBlockIndex(InvalidBlockIndex { expected: position as u32, found: declared })
    }
}

/// Check that each block's declared index equals its chain position. The
/// first violation is reported: index 0 must hold the authority block, and
/// every later block must declare exactly its position.
pub fn check_block_indices(blocks: &Vec<Block>) -> (r: Result<(), Token>)
    requires
        blocks@.len() <= u32::MAX,
    ensures
        r is Ok <==> indices_valid(blocks@),
        r matches Err(e) ==> exists|j: int|
            0 <= j < blocks@.len() && (#[trigger] blocks@[j]).index != j && (forall|k: int|
                0 <= k < j ==> (#[trigger] blocks@[k]).index == k) && e == index_mismatch_error(
                j,
                blocks@[j].index,
            ),
{
    let mut i: usize = 0;
    while i < blocks.len()
        invariant
            0 <= i <= blocks@.len(),
            blocks@.len() <= u32::MAX,
            forall|k: int| 0 <= k < i ==> (#[trigger] blocks@[k]).index == k,
        decreases blocks@.len() - i,
    {
        let declared = blocks[i].index;
        if declared as usize != i {
            if i == 0 {
                return Err(Token::InvalidAuthorityIndex(declared));
            } else {
                return Err(
                    Token::InvalidBlockIndex(
                        InvalidBlockIndex { expected: i as u32, found: declared },
                    ),
                );
            }
        }
        i = i + 1;
    }
    Ok(())
}

/// The merged symbol table of a chain: each block's symbols appended in
/// block order, in declared order within a block.
pub open spec fn merged_symbols(blocks: Seq<Block>) -> Seq<Seq<char>>
    decreases blocks.len(),
{
    if blocks.len() == 0 {
        Seq::empty()
    } else {
        merged_symbols(blocks.drop_last()) + blocks.last().symbol_views()
    }
}

/// No symbol identifier is declared twice across the chain.
pub open spec fn unique_symbols(blocks: Seq<Block>) -> bool {
    forall|i: int, j: int|
        0 <= i < j < merged_symbols(blocks).len() ==> merged_symbols(blocks)[i] != merged_symbols(
            blocks,
        )[j]
}

/// The merged table holds both mandatory default namespaces.
pub open spec fn has_default_symbols(blocks: Seq<Block>) -> bool {
    merged_symbols(blocks).contains("authority"@) && merged_symbols(blocks).contains("ambient"@)
}

proof fn lemma_string_views_push(v: Seq<String>, x: String)
    ensures
        string_views(v.push(x)) =~= string_views(v).push(x@),
{
    assert forall|k: int| 0 <= k < v.len() + 1 implies string_views(v.push(x))[k] == string_views(
        v,
    ).push(x@)[k] by {
        if k < v.len() {
            assert(v.push(x)[k] == v[k]);
        } else {
            assert(v.push(x)[k] == x);
        }
    }
}

proof fn lemma_merged_take_step(blocks: Seq<Block>, n: int)
    requires
        0 <= n < blocks.len(),
    ensures
        merged_symbols(blocks.take(n + 1)) == merged_symbols(blocks.take(n))
            + blocks[n].symbol_views(),
{
    assert(blocks.take(n + 1).drop_last() =~= blocks.take(n));
    assert(blocks.take(n + 1).last() == blocks[n]);
}

proof fn lemma_merged_take_prefix(blocks: Seq<Block>, n: int)
    requires
        0 <= n <= blocks.len(),
    ensures
        merged_symbols(blocks.take(n)).len() <= merged_symbols(blocks).len(),
        forall|k: int|
            0 <= k < merged_symbols(blocks.take(n)).len() ==> merged_symbols(blocks.take(n))[k]
                == merged_symbols(blocks)[k],
    decreases blocks.len() - n,
{
    if n == blocks.len() {
        assert(blocks.take(n) =~= blocks);
    } else {
        lemma_merged_take_step(blocks, n);
        lemma_merged_take_prefix(blocks, n + 1);
    }
}

/// Whether the table holds a string with these characters.
fn contains_string(table: &Vec<String>, s: &String) -> (r: bool)
    ensures
        r == string_views(table@).contains(s@),
{
    let mut i: usize = 0;
    while i < table.len()
        invariant
            0 <= i <= table@.len(),
            forall|k: int| 0 <= k < i ==> string_views(table@)[k] != s@,
        decreases table@.len() - i,
    {
        assert(string_views(table@)[i as int] == table@[i as int]@);
        if table[i].eq(s) {
            assert(string_views(table@).contains(s@));
            return true;
        }
        i = i + 1;
    }
    assert(!string_views(table@).contains(s@));
    false
}

/// Merge the chain's symbol tables into one. Any symbol declared twice is a
/// `SymbolTableOverlap`; a merged table lacking the "authority" or "ambient"
/// default namespace is `MissingSymbols`; otherwise the merged table is
/// returned, in block order, in declared order within a block.
pub fn merge_symbol_table(blocks: &Vec<Block>) -> (r: Result<Vec<String>, Token>)
    ensures
        r is Ok <==> unique_symbols(blocks@) && has_default_symbols(blocks@),
        r matches Ok(table) ==> string_views(table@) == merged_symbols(blocks@),
        r == Err::<Vec<String>, Token>(Token::SymbolTableOverlap) <==> !unique_symbols(blocks@),
        r == Err::<Vec<String>, Token>(Token::MissingSymbols) <==> unique_symbols(blocks@)
            && !has_default_symbols(blocks@),
{
    let mut table: Vec<String> = Vec::new();
    let mut bi: usize = 0;
    proof {
        assert(blocks@.take(0) =~= Seq::<Block>::empty());
        assert(string_views(table@) =~= merged_symbols(blocks@.take(0)));
    }
    while bi < blocks.len()
        invariant
            0 <= bi <= blocks@.len(),
            string_views(table@) == merged_symbols(blocks@.take(bi as int)),
            forall|i: int, j: int|
                0 <= i < j < string_views(table@).len() ==> string_views(table@)[i] != string_views(
                    table@,
                )[j],
        decreases blocks@.len() - bi,
    {
        let mut si: usize = 0;
        proof {
            assert(string_views(table@) =~= merged_symbols(blocks@.take(bi as int)) + blocks@[
                bi as int
            ].symbol_views().take(0));
        }
        while si < blocks[bi].symbols.len()
            invariant
                0 <= bi < blocks@.len(),
                0 <= si <= blocks@[bi as int].symbol_views().len(),
                string_views(table@) == merged_symbols(blocks@.take(bi as int)) + blocks@[
                    bi as int
                ].symbol_views().take(si as int),
                forall|i: int, j: int|
                    0 <= i < j < string_views(table@).len() ==> string_views(table@)[i]
                        != string_views(table@)[j],
            decreases blocks@[bi as int].symbol_views().len() - si,
        {
            let s = &blocks[bi].symbols[si];
            assert(s@ == blocks@[bi as int].symbol_views()[si as int]);
            if contains_string(&table, s) {
                proof {
                    let flat = string_views(table@);
                    let k = choose|k: int| 0 <= k < flat.len() && flat[k] == s@;
                    let p = flat.len() as int;
                    lemma_merged_take_step(blocks@, bi as int);
                    lemma_merged_take_prefix(blocks@, bi as int + 1);
                    let up = merged_symbols(blocks@.take(bi as int + 1));
                    assert(up[p] == blocks@[bi as int].symbol_views()[si as int]);
                    assert(merged_symbols(blocks@)[p] == s@);
                    assert(up[k] == flat[k]);
                    assert(merged_symbols(blocks@)[k] == s@);
                    assert(!unique_symbols(blocks@));
                }
                return Err(Token::SymbolTableOverlap);
            }
            let ghost table_before = table@;
            table.push(s.clone());
            proof {
                lemma_string_views_push(table_before, table@.last());
                assert(table@ =~= table_before.push(table@.last()));
                assert(string_views(table@) =~= merged_symbols(blocks@.take(bi as int)) + blocks@[
                    bi as int
                ].symbol_views().take(si as int + 1));
            }
            si = si + 1;
        }
        proof {
            assert(blocks@[bi as int].symbol_views().take(si as int) =~= blocks@[
                bi as int
            ].symbol_views());
            lemma_merged_take_step(blocks@, bi as int);
        }
        bi = bi + 1;
    }
    proof {
        assert(blocks@.take(bi as int) =~= blocks@);
    }
    let authority_tag = String::from_str("authority");
    let ambient_tag = String::from_str("ambient");
    if !contains_string(&table, &authority_tag) || !contains_string(&table, &ambient_tag) {
        return Err(Token::MissingSymbols);
    }
    Ok(table)
}

/// A token's chain of signed blocks, with its sealing state. A sealed chain
/// is cryptographically finalized: no block can ever be appended to it.
#[derive(Clone, Debug, PartialEq, Eq)]
pub struct TokenChain {
    /// The blocks in chain order; the first is the authority block.
    pub blocks: Vec<Block>,
    /// Whether the chain has been finalized against further appends.
    pub sealed: bool,
}

impl TokenChain {
    /// Every block of the chain declares exactly its position.
    pub open spec fn wf(self) -> bool {
        indices_valid(self.blocks@) && self.blocks@.len() <= u32::MAX
    }

    /// Start a chain from its authority block, which must declare index 0;
    /// any other declared index is reported with the offending value.
    pub fn new(authority: Block) -> (r: Result<TokenChain, Token>)
        ensures
            authority.index == 0 ==> (r matches Ok(c) && c.blocks@ =~= seq![authority] && !c.sealed
                && c.wf()),
            authority.index != 0 ==> r == Err::<TokenChain, Token>(
                Token::InvalidAuthorityIndex(authority.index),
            ),
    {
        if authority.index == 0 {
            let mut blocks: Vec<Block> = Vec::new();
            blocks.push(authority);
            Ok(TokenChain { blocks, sealed: false })
        } else {
            Err(Token::InvalidAuthorityIndex(authority.index))
        }
    }

    /// Append a block to the chain. An append on a sealed chain always
    /// yields `Sealed`, regardless of the block's content; a block whose
    /// declared index is not its position yields `InvalidBlockIndex` with
    /// both values; otherwise the block is appended and nothing else moves.
    pub fn append_block(&mut self, block: Block) -> (r: Result<(), Token>)
        requires
            old(self).blocks@.len() < u32::MAX,
        ensures
            old(self).sealed ==> r == Err::<(), Token>(Token::Sealed) && *final(self) == *old(self),
            !old(self).sealed && block.index == old(self).blocks@.len() ==> r is Ok
                && final(self).blocks@ == old(self).blocks@.push(block)
                && final(self).sealed == false,
            !old(self).sealed && block.index != old(self).blocks@.len() ==> r == Err::<(), Token>(
                Token::InvalidBlockIndex(
                    InvalidBlockIndex {
                        expected: old(self).blocks@.len() as u32,
                        found: block.index,
                    },
                ),
            ) && *final(self) == *old(self),
            old(self).wf() && r is Ok ==> final(self).wf(),
    {
        if self.sealed {
            return Err(Token::Sealed);
        }
        let position = self.blocks.len();
        if block.index as usize != position {
            return Err(
                Token::InvalidBlockIndex(
                    InvalidBlockIndex { expected: position as u32, found: block.index },
                ),
            );
        }
        self.blocks.push(block);
        proof {
            if old(self).wf() {
                assert forall|i: int| 0 <= i < self.blocks@.len() implies (#[trigger] self.blocks@[
                    i
                ]).index == i by {
                    if i < old(self).blocks@.len() {
                        assert(self.blocks@[i] == old(self).blocks@[i]);
                    }
                }
            }
        }
        Ok(())
    }

    /// Seal the chain against further appends; the blocks do not change.
    pub fn seal(&mut self)
        ensures
            final(self).sealed,
            final(self).blocks == old(self).blocks,
    {
        self.sealed = true;
    }
}

} // verus!
