use jarvis_desktop::identifier::{
    canonical_kind, normalize_identifier_internal, to_pipeline_identifier,
};

#[test]
fn normalize_identifier_doi_variants() {
    let from_url = normalize_identifier_internal("https://doi.org/10.1234/AbCd");
    assert_eq!(from_url.kind, "doi");
    assert_eq!(from_url.canonical, "10.1234/abcd");

    let from_prefix = normalize_identifier_internal("doi:10.5555/XYZ");
    assert_eq!(from_prefix.kind, "doi");
    assert_eq!(from_prefix.canonical, "10.5555/xyz");

    let from_raw = normalize_identifier_internal("10.1000/182");
    assert_eq!(from_raw.kind, "doi");
    assert_eq!(from_raw.canonical, "10.1000/182");
}

#[test]
fn normalize_identifier_pmid_variants() {
    let from_url = normalize_identifier_internal("https://pubmed.ncbi.nlm.nih.gov/12345678/");
    assert_eq!(from_url.kind, "pmid");
    assert_eq!(from_url.canonical, "pmid:12345678");

    let from_prefix = normalize_identifier_internal("pmid:87654321");
    assert_eq!(from_prefix.kind, "pmid");
    assert_eq!(from_prefix.canonical, "pmid:87654321");

    let from_raw = normalize_identifier_internal("24681357");
    assert_eq!(from_raw.kind, "pmid");
    assert_eq!(from_raw.canonical, "pmid:24681357");
}

#[test]
fn normalize_identifier_arxiv_variants() {
    let from_url = normalize_identifier_internal("https://arxiv.org/abs/2301.01234");
    assert_eq!(from_url.kind, "arxiv");
    assert_eq!(from_url.canonical, "arxiv:2301.01234");

    let from_prefix = normalize_identifier_internal("arxiv:1706.03762");
    assert_eq!(from_prefix.kind, "arxiv");
    assert_eq!(from_prefix.canonical, "arxiv:1706.03762");

    let from_raw = normalize_identifier_internal("2301.01234");
    assert_eq!(from_raw.kind, "arxiv");
    assert_eq!(from_raw.canonical, "arxiv:2301.01234");
}

#[test]
fn normalize_identifier_s2_variants() {
    let from_url = normalize_identifier_internal(
        "https://www.semanticscholar.org/paper/Attention-Is-All-You-Need/204e3073870fae3d05bcbc2f6a8e263d9b72e776",
    );
    assert_eq!(from_url.kind, "s2");
    assert!(from_url.canonical.starts_with("S2PaperId:"));

    let from_corpus = normalize_identifier_internal("CorpusId:12345");
    assert_eq!(from_corpus.kind, "s2");
    assert_eq!(from_corpus.canonical, "CorpusId:12345");
}

#[test]
fn normalize_identifier_invalid_string() {
    let invalid = normalize_identifier_internal("not-an-id???");
    assert_eq!(invalid.kind, "unknown");
    assert!(!invalid.errors.is_empty());
}

#[test]
fn pipeline_identifier_spellings_follow_the_kind() {
    let doi = normalize_identifier_internal("doi:10.5555/XYZ");
    assert_eq!(to_pipeline_identifier(&doi).unwrap(), "doi:10.5555/xyz");

    let pmid = normalize_identifier_internal("pmid:12345678");
    assert_eq!(to_pipeline_identifier(&pmid).unwrap(), "pmid:12345678");

    let s2 = normalize_identifier_internal("CorpusId:12345");
    assert_eq!(to_pipeline_identifier(&s2).unwrap(), "s2:CorpusId:12345");

    let bad = normalize_identifier_internal("not-an-id???");
    assert!(to_pipeline_identifier(&bad).is_err());
}

#[test]
fn canonical_kind_reads_the_prefix() {
    let doi = "doi:10.1/abc".to_string();
    assert_eq!(canonical_kind(Some(&doi)).unwrap(), "doi");
    let raw_doi = "10.1000/182".to_string();
    assert_eq!(canonical_kind(Some(&raw_doi)).unwrap(), "doi");
    let pmid = "PMID:9".to_string();
    assert_eq!(canonical_kind(Some(&pmid)).unwrap(), "pmid");
    let arxiv = "arxiv:1706.03762".to_string();
    assert_eq!(canonical_kind(Some(&arxiv)).unwrap(), "arxiv");
    let s2 = "CorpusId:44".to_string();
    assert_eq!(canonical_kind(Some(&s2)).unwrap(), "s2");
    let other = "zzz".to_string();
    assert_eq!(canonical_kind(Some(&other)).unwrap(), "unknown");
    assert!(canonical_kind(None).is_none());
}
