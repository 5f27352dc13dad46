use solid_kmers::canonical::canonical_kmer;
use solid_kmers::canonical::complement_base;
use solid_kmers::canonical::lex_le_bytes;
use solid_kmers::canonical::reverse_complement;

#[test]
fn complement_pairs_the_four_bases() {
    assert_eq!(complement_base(b'A'), b'T');
    assert_eq!(complement_base(b'T'), b'A');
    assert_eq!(complement_base(b'C'), b'G');
    assert_eq!(complement_base(b'G'), b'C');
}

#[test]
fn complement_leaves_other_bytes_alone() {
    assert_eq!(complement_base(b'N'), b'N');
    assert_eq!(complement_base(b'a'), b'a');
    assert_eq!(complement_base(b't'), b't');
    assert_eq!(complement_base(0), 0);
    assert_eq!(complement_base(255), 255);
}

#[test]
fn complement_twice_is_identity_on_every_byte() {
    for b in 0..=255u8 {
        assert_eq!(complement_base(complement_base(b)), b);
    }
}

#[test]
fn reverse_complement_of_aaa_is_ttt() {
    assert_eq!(reverse_complement(b"AAA"), b"TTT".to_vec());
}

#[test]
fn reverse_complement_reverses_and_complements() {
    assert_eq!(reverse_complement(b"AACG"), b"CGTT".to_vec());
    assert_eq!(reverse_complement(b"GATTACA"), b"TGTAATC".to_vec());
}

#[test]
fn reverse_complement_is_not_the_identity() {
    assert_ne!(reverse_complement(b"AAC"), b"AAC".to_vec());
}

#[test]
fn reverse_complement_of_empty_is_empty() {
    assert_eq!(reverse_complement(b""), Vec::<u8>::new());
}

#[test]
fn reverse_complement_passes_unknown_symbols_through() {
    assert_eq!(reverse_complement(b"ANC"), b"GNT".to_vec());
    assert_eq!(reverse_complement(b"acgt"), b"tgca".to_vec());
}

#[test]
fn reverse_complement_twice_gives_the_window_back() {
    let w = b"ACGGTNATTC".to_vec();
    assert_eq!(reverse_complement(&reverse_complement(&w)), w);
}

#[test]
fn lex_order_decides_on_first_difference() {
    assert!(lex_le_bytes(b"AAC", b"AAG"));
    assert!(!lex_le_bytes(b"AAG", b"AAC"));
    assert!(lex_le_bytes(b"ACT", b"CAA"));
    assert!(!lex_le_bytes(b"T", b"GGGG"));
}

#[test]
fn lex_order_puts_a_prefix_first() {
    assert!(lex_le_bytes(b"AC", b"ACG"));
    assert!(!lex_le_bytes(b"ACG", b"AC"));
    assert!(lex_le_bytes(b"", b"A"));
    assert!(!lex_le_bytes(b"A", b""));
}

#[test]
fn lex_order_is_reflexive() {
    assert!(lex_le_bytes(b"", b""));
    assert!(lex_le_bytes(b"ACGT", b"ACGT"));
}

#[test]
fn lex_order_compares_bytes_unsigned() {
    assert!(lex_le_bytes(&[0x7f], &[0x80]));
    assert!(!lex_le_bytes(&[0xff], &[0x00]));
}

#[test]
fn lex_order_agrees_with_slice_order() {
    let words: [&[u8]; 7] = [b"", b"A", b"AA", b"AC", b"C", b"CA", b"TTT"];
    for a in words.iter() {
        for b in words.iter() {
            assert_eq!(lex_le_bytes(a, b), a <= b);
        }
    }
}

#[test]
fn canonical_keeps_the_smaller_strand() {
    assert_eq!(canonical_kmer(b"AAA"), b"AAA".to_vec());
    assert_eq!(canonical_kmer(b"TTT"), b"AAA".to_vec());
    assert_eq!(canonical_kmer(b"AAT"), b"AAT".to_vec());
    assert_eq!(canonical_kmer(b"ATT"), b"AAT".to_vec());
    assert_eq!(canonical_kmer(b"GGC"), b"GCC".to_vec());
}

#[test]
fn canonical_of_aaa_and_ttt_agree() {
    assert_eq!(canonical_kmer(b"AAA"), canonical_kmer(b"TTT"));
}

#[test]
fn canonical_of_aat_and_aaa_differ() {
    assert_ne!(canonical_kmer(b"AAT"), canonical_kmer(b"AAA"));
}

#[test]
fn canonical_is_idempotent() {
    let words: [&[u8]; 6] = [b"AAA", b"TTT", b"ACGT", b"GATTACA", b"TNA", b"CCGTA"];
    for w in words.iter() {
        let c = canonical_kmer(w);
        assert_eq!(canonical_kmer(&c), c);
    }
}

#[test]
fn canonical_is_strand_invariant() {
    let words: [&[u8]; 6] = [b"AAA", b"TTT", b"ACGT", b"GATTACA", b"TNA", b"CCGTA"];
    for w in words.iter() {
        assert_eq!(canonical_kmer(&reverse_complement(w)), canonical_kmer(w));
    }
}

#[test]
fn canonical_of_palindrome_is_the_window() {
    assert_eq!(reverse_complement(b"ACGT"), b"ACGT".to_vec());
    assert_eq!(canonical_kmer(b"ACGT"), b"ACGT".to_vec());
    assert_eq!(canonical_kmer(b"AATT"), b"AATT".to_vec());
}

#[test]
fn canonical_of_empty_is_empty() {
    assert_eq!(canonical_kmer(b""), Vec::<u8>::new());
}

#[test]
fn canonical_passes_unknown_symbols_through() {
    assert_eq!(canonical_kmer(b"TNN"), b"NNA".to_vec());
    assert_eq!(canonical_kmer(b"NNA"), b"NNA".to_vec());
}
