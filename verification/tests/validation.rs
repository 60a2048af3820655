use biscuit_errors::chain::check_block_indices;
use biscuit_errors::chain::merge_symbol_table;
use biscuit_errors::chain::Block;
use biscuit_errors::chain::TokenChain;
use biscuit_errors::codec::check_format_version;
use biscuit_errors::codec::from_base64;
use biscuit_errors::signature::check_intermediate_keys;
use biscuit_errors::signature::check_root_key;
use biscuit_errors::signature::parse_signature;
use biscuit_errors::signature::verify_sealed_signature;
use biscuit_errors::signature::verify_signature;
use biscuit_errors::signature::SIGNATURE_LENGTH;
use biscuit_errors::Base64Error;
use biscuit_errors::Format;
use biscuit_errors::InvalidBlockIndex;
use biscuit_errors::Signature;
use biscuit_errors::Token;

fn block(index: u32, symbols: &[&str]) -> Block {
    Block {
        index,
        symbols: symbols.iter().map(|s| s.to_string()).collect(),
    }
}

#[test]
fn block_index_mismatch_is_reported_with_both_values() {
    let blocks = vec![block(0, &[]), block(1, &[]), block(5, &[])];
    assert_eq!(
        check_block_indices(&blocks),
        Err(Token::InvalidBlockIndex(InvalidBlockIndex {
            expected: 2,
            found: 5,
        }))
    );
}

#[test]
fn authority_index_violation_has_its_own_variant() {
    let blocks = vec![block(3, &[])];
    assert_eq!(
        check_block_indices(&blocks),
        Err(Token::InvalidAuthorityIndex(3))
    );
}

#[test]
fn valid_indices_pass() {
    let blocks = vec![block(0, &[]), block(1, &[]), block(2, &[])];
    assert_eq!(check_block_indices(&blocks), Ok(()));
    assert_eq!(check_block_indices(&Vec::new()), Ok(()));
}

#[test]
fn overlapping_symbols_are_rejected() {
    let blocks = vec![
        block(0, &["authority", "ambient", "read"]),
        block(1, &["read"]),
    ];
    assert_eq!(
        merge_symbol_table(&blocks),
        Err(Token::SymbolTableOverlap)
    );
}

#[test]
fn missing_default_namespace_is_rejected() {
    let only_authority = vec![block(0, &["authority", "read"])];
    assert_eq!(
        merge_symbol_table(&only_authority),
        Err(Token::MissingSymbols)
    );
    let only_ambient = vec![block(0, &["ambient", "read"])];
    assert_eq!(
        merge_symbol_table(&only_ambient),
        Err(Token::MissingSymbols)
    );
}

#[test]
fn merged_table_keeps_declared_order() {
    let blocks = vec![
        block(0, &["authority", "ambient"]),
        block(1, &["read", "write"]),
    ];
    let table = merge_symbol_table(&blocks).unwrap();
    assert_eq!(table, vec!["authority", "ambient", "read", "write"]);
}

#[test]
fn malformed_signature_bytes_are_a_format_failure() {
    let short = vec![7u8; SIGNATURE_LENGTH - 1];
    assert_eq!(
        parse_signature(&short).unwrap_err(),
        Token::Format(Format::Signature(Signature::InvalidFormat))
    );
    let empty: Vec<u8> = Vec::new();
    assert_eq!(
        parse_signature(&empty).unwrap_err(),
        Token::Format(Format::Signature(Signature::InvalidFormat))
    );
}

#[test]
fn non_matching_signature_is_never_conflated_with_a_parse_failure() {
    let bytes = vec![7u8; SIGNATURE_LENGTH];
    let sig = parse_signature(&bytes).unwrap();
    let mut other = bytes.clone();
    other[0] = 8;
    assert_eq!(
        verify_signature(&sig, &other),
        Err(Token::Format(Format::Signature(Signature::InvalidSignature)))
    );
    assert_eq!(verify_signature(&sig, &bytes), Ok(()));
}

#[test]
fn sealed_signature_mismatch_has_its_own_variant() {
    let bytes = vec![1u8; SIGNATURE_LENGTH];
    let sig = parse_signature(&bytes).unwrap();
    let other = vec![2u8; SIGNATURE_LENGTH];
    assert_eq!(
        verify_sealed_signature(&sig, &other),
        Err(Token::Format(Format::SealedSignature))
    );
}

#[test]
fn appending_to_a_sealed_token_always_yields_sealed() {
    let mut chain = TokenChain::new(block(0, &["authority", "ambient"])).unwrap();
    chain.seal();
    assert_eq!(
        chain.append_block(block(1, &["read"])),
        Err(Token::Sealed)
    );
    assert_eq!(chain.append_block(block(7, &[])), Err(Token::Sealed));
    assert_eq!(chain.blocks.len(), 1);
}

#[test]
fn appending_a_misindexed_block_is_rejected() {
    let mut chain = TokenChain::new(block(0, &[])).unwrap();
    assert_eq!(
        chain.append_block(block(2, &[])),
        Err(Token::InvalidBlockIndex(InvalidBlockIndex {
            expected: 1,
            found: 2,
        }))
    );
    assert_eq!(chain.append_block(block(1, &[])), Ok(()));
    assert_eq!(chain.blocks.len(), 2);
}

#[test]
fn a_chain_must_start_with_index_zero() {
    assert_eq!(
        TokenChain::new(block(2, &[])).unwrap_err(),
        Token::InvalidAuthorityIndex(2)
    );
}

#[test]
fn version_above_maximum_reports_both() {
    assert_eq!(
        check_format_version(1, 2),
        Err(Format::Version {
            maximum: 1,
            actual: 2,
        })
    );
    assert_eq!(check_format_version(1, 1), Ok(()));
    assert_eq!(check_format_version(1, 0), Ok(()));
}

#[test]
fn a_chain_without_intermediate_keys_is_rejected() {
    assert_eq!(
        check_intermediate_keys(0),
        Err(Token::Format(Format::EmptyKeys))
    );
    assert_eq!(check_intermediate_keys(1), Ok(()));
}

#[test]
fn an_unknown_root_key_is_a_trust_failure() {
    let trusted = vec![vec![1u8, 2, 3], vec![4u8, 5, 6]];
    assert_eq!(
        check_root_key(&trusted, &vec![7u8, 8, 9]),
        Err(Token::Format(Format::UnknownPublicKey))
    );
    assert_eq!(check_root_key(&trusted, &vec![4u8, 5, 6]), Ok(()));
    assert_eq!(
        check_root_key(&Vec::new(), &vec![1u8]),
        Err(Token::Format(Format::UnknownPublicKey))
    );
}

#[test]
fn base64_decoding_decodes() {
    assert_eq!(from_base64("aGVsbG8=").unwrap(), b"hello".to_vec());
    assert_eq!(from_base64("").unwrap(), Vec::<u8>::new());
}

#[test]
fn base64_failures_carry_the_decode_error_verbatim() {
    assert_eq!(
        from_base64("!GVsbG8=").unwrap_err(),
        Token::Base64(Base64Error::InvalidByte(0, b'!'))
    );
    match from_base64("a").unwrap_err() {
        Token::Base64(_) => {}
        other => panic!("expected a base64 failure, got {:?}", other),
    }
}
