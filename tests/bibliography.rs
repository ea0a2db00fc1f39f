use portfolio::bibliography::Bibliography;
use portfolio::entry::{copied_after, AuthorLine, BibError, FieldError, LinkKind};

const BIB: &str = r"
@inproceedings{orsula2022learning,
    title = {{Learning to Grasp on the Moon from 3D Octree Observations with Deep Reinforcement Learning}},
    author = {Andrej Orsula and Simon Bøgh and Miguel Olivares-Mendez and Carol Martinez},
    booktitle = {2022 IEEE/RSJ International Conference on Intelligent Robots and Systems (IROS)},
    year = {2022},
    organization = {IEEE},
    page = {4112--4119},
    repository = {https://github.com/AndrejOrsula/drl_grasping},
    article_pdf = {https://arxiv.org/pdf/2208.00818},
    publication_url = {https://ieeexplore.ieee.org/document/9981661},
}
";

fn no_assets() -> Vec<String> {
    Vec::new()
}

#[test]
fn parse_bib() {
    let bibliography = Bibliography::parse(BIB, &no_assets()).unwrap();
    let entry = bibliography.iter().next().unwrap();

    assert_eq!(
        entry.title().unwrap(),
        "Learning to Grasp on the Moon from 3D Octree Observations with Deep Reinforcement Learning"
    );
    assert_eq!(
        entry.author().unwrap().iter().map(|a| a.full_name()).collect::<Vec<_>>(),
        ["Andrej Orsula", "Simon Bøgh", "Miguel Olivares-Mendez", "Carol Martinez"]
    );
    assert_eq!(entry.year().unwrap(), 2022);
    assert_eq!(
        entry.venue().unwrap(),
        "2022 IEEE/RSJ International Conference on Intelligent Robots and Systems (IROS)"
    );
    assert!(entry.homepage().is_err());
    assert_eq!(entry.publication_url().unwrap(), "https://ieeexplore.ieee.org/document/9981661");
    assert_eq!(entry.article_pdf().unwrap(), "https://arxiv.org/pdf/2208.00818");
    assert!(entry.article_html().is_err());
    assert_eq!(entry.repository().unwrap(), "https://github.com/AndrejOrsula/drl_grasping");
}

fn record(key: &str, year: &str, extra: &str) -> String {
    format!(
        "@article{{{key},\n  title = {{A title}},\n  author = {{Andrej Orsula and Simon Bøgh}},\n  journal = {{Some Journal}},\n  year = {{{year}}},\n{extra}}}\n"
    )
}

#[test]
fn pdf_absent_and_permalink_present() {
    let src = "@inproceedings{k,
    title = {Octree grasping},
    author = {Andrej Orsula and Simon Bøgh and Miguel Olivares-Mendez and Carol Martinez},
    booktitle = {Some Conference},
    year = {2022},
    publication_url = {https://example.org/paper},
}";
    let b = Bibliography::parse(src, &no_assets()).unwrap();
    let e = b.get(0).unwrap();
    assert_eq!(e.article_pdf(), Err(FieldError::Missing("article".to_string())));
    assert_eq!(e.publication_url().unwrap(), "https://example.org/paper");
    assert_eq!(e.title_link(), Some((LinkKind::PublicationUrl, "https://example.org/paper".to_string())));
}

#[test]
fn primary_field_beats_alias() {
    let src = record("k", "2020", "  homepage = {https://primary.org},\n  website = {https://alias.org},\n  code = {https://code.org},\n");
    let b = Bibliography::parse(&src, &no_assets()).unwrap();
    let e = b.get(0).unwrap();
    assert_eq!(e.homepage().unwrap(), "https://primary.org");
    assert_eq!(e.repository().unwrap(), "https://code.org");
    assert_eq!(e.title_link(), Some((LinkKind::Homepage, "https://primary.org".to_string())));
}

#[test]
fn empty_primary_falls_back_on_alias() {
    let src = record("k", "2020", "  homepage = {},\n  website = {https://alias.org},\n");
    let b = Bibliography::parse(&src, &no_assets()).unwrap();
    assert_eq!(b.get(0).unwrap().homepage().unwrap(), "https://alias.org");
}

#[test]
fn absent_links_report_missing() {
    let b = Bibliography::parse(&record("k", "2020", ""), &no_assets()).unwrap();
    let e = b.get(0).unwrap();
    assert_eq!(e.video(), Err(FieldError::Missing("video".to_string())));
    assert_eq!(e.presentation(), Err(FieldError::Missing("presentation".to_string())));
    assert!(e.links().is_empty());
    assert_eq!(e.title_link(), None);
}

#[test]
fn links_in_button_order() {
    let src = record("k", "2020", "  code = {C},\n  pdf = {P},\n  website = {W},\n  short_video = {V},\n");
    let b = Bibliography::parse(&src, &no_assets()).unwrap();
    let links = b.get(0).unwrap().links();
    assert_eq!(
        links,
        vec![
            (LinkKind::Homepage, "W".to_string()),
            (LinkKind::ArticlePdf, "P".to_string()),
            (LinkKind::Video, "V".to_string()),
            (LinkKind::Repository, "C".to_string()),
        ]
    );
}

#[test]
fn newest_first_in_either_source_order() {
    let a = record("old", "2022", "");
    let b = record("new", "2023", "");
    for src in [format!("{a}{b}"), format!("{b}{a}")] {
        let bib = Bibliography::parse(&src, &no_assets()).unwrap();
        assert_eq!(bib.len(), 2);
        assert_eq!(bib.get(0).unwrap().year().unwrap(), 2023);
        assert_eq!(bib.get(1).unwrap().year().unwrap(), 2022);
        assert_eq!(bib.year_headings(), vec![true, true]);
    }
}

#[test]
fn same_year_shares_one_heading() {
    let src = format!("{}{}{}", record("a", "2021", ""), record("b", "2021", ""), record("c", "2019", ""));
    let bib = Bibliography::parse(&src, &no_assets()).unwrap();
    assert_eq!(bib.year_headings(), vec![true, false, true]);
}

#[test]
fn equal_dates_later_source_first() {
    let src = format!("{}{}{}", record("first", "2021", ""), record("second", "2021", ""), record("third", "2021", ""));
    let bib = Bibliography::parse(&src, &no_assets()).unwrap();
    let keys: Vec<&str> = bib.entries().iter().map(|e| e.key()).collect();
    assert_eq!(keys, ["third", "second", "first"]);
    assert_eq!(bib.get(0).unwrap().position(), 2);
}

#[test]
fn months_order_within_a_year() {
    let src = format!(
        "{}{}{}",
        record("march", "2021", "  month = {mar},\n"),
        record("december", "2021", "  month = {dec},\n"),
        record("plain", "2021", ""),
    );
    let bib = Bibliography::parse(&src, &no_assets()).unwrap();
    let keys: Vec<&str> = bib.entries().iter().map(|e| e.key()).collect();
    assert_eq!(keys, ["december", "march", "plain"]);
    assert_eq!(bib.get(0).unwrap().date().month, Some(11));
}

#[test]
fn empty_source_gives_empty_bibliography() {
    let bib = Bibliography::parse("", &no_assets()).unwrap();
    assert!(bib.is_empty());
    assert!(bib.get(0).is_none());
    assert!(bib.year_headings().is_empty());
}

#[test]
fn syntax_error_is_reported() {
    let r = Bibliography::parse("@article{broken, title = {x", &no_assets());
    assert!(matches!(r, Err(BibError::Syntax { .. })));
}

#[test]
fn missing_title_names_entry() {
    let src = "@article{notitle, author = {A B}, journal = {J}, year = {2020}}";
    let r = Bibliography::parse(src, &no_assets());
    assert_eq!(r.err(), Some(BibError::MissingField { key: "notitle".to_string(), field: "title".to_string() }));
}

#[test]
fn missing_venue_names_entry() {
    let src = "@article{novenue, title = {T}, author = {A B}, year = {2020}}";
    let r = Bibliography::parse(src, &no_assets());
    assert_eq!(r.err(), Some(BibError::MissingField { key: "novenue".to_string(), field: "booktitle".to_string() }));
}

#[test]
fn missing_author_names_entry() {
    let src = "@article{noauthor, title = {T}, journal = {J}, year = {2020}}";
    let r = Bibliography::parse(src, &no_assets());
    assert_eq!(r.err(), Some(BibError::MissingField { key: "noauthor".to_string(), field: "author".to_string() }));
}

#[test]
fn missing_year_names_entry() {
    let src = "@article{nodate, title = {T}, author = {A B}, journal = {J}}";
    let r = Bibliography::parse(src, &no_assets());
    assert_eq!(r.err(), Some(BibError::MissingField { key: "nodate".to_string(), field: "year".to_string() }));
}

#[test]
fn unreadable_date_names_entry() {
    let src = "@article{baddate, title = {T}, author = {A B}, journal = {J}, date = {sometime soon}}";
    let r = Bibliography::parse(src, &no_assets());
    assert_eq!(r.err(), Some(BibError::InvalidDate { key: "baddate".to_string() }));
}

#[test]
fn thumbnail_matches_key_stem() {
    let assets = vec![
        "thumbnails/other.png".to_string(),
        "thumbnails/orsula2022learning.jpg".to_string(),
        "thumbnails/orsula2022learning.png".to_string(),
    ];
    let bib = Bibliography::parse(BIB, &assets).unwrap();
    assert_eq!(bib.get(0).unwrap().thumbnail(), Some(1));
    let none = Bibliography::parse(BIB, &vec!["thumbnails/orsula2022.png".to_string()]).unwrap();
    assert_eq!(none.get(0).unwrap().thumbnail(), None);
}

#[test]
fn citation_drops_custom_fields() {
    let bib = Bibliography::parse(BIB, &no_assets()).unwrap();
    let text = bib.get(0).unwrap().citation_text();
    assert!(text.contains("orsula2022learning"));
    assert!(text.contains("IROS"));
    assert!(!text.contains("repository"));
    assert!(!text.contains("publication_url"));
    assert!(!text.contains("article_pdf"));
}

#[test]
fn venue_label_abbreviation_and_preprints() {
    let bib = Bibliography::parse(BIB, &no_assets()).unwrap();
    assert_eq!(bib.get(0).unwrap().venue_label(), "IROS 2022");

    let src = "@article{x, title = {T}, author = {A B}, journal = {ArXiv Preprint arXiv:2208.00818}, year = {2022}}";
    let bib = Bibliography::parse(src, &no_assets()).unwrap();
    assert_eq!(bib.get(0).unwrap().venue_label(), "arXiv preprint");

    let src = "@article{x, title = {T}, author = {A B}, journal = {TechRxiv PREPRINT}, year = {2022}}";
    let bib = Bibliography::parse(src, &no_assets()).unwrap();
    assert_eq!(bib.get(0).unwrap().venue_label(), "Preprint");

    let src = "@article{x, title = {T}, author = {A B}, journal = {Acta Astronautica}, year = {2022}}";
    let bib = Bibliography::parse(src, &no_assets()).unwrap();
    assert_eq!(bib.get(0).unwrap().venue_label(), "Acta Astronautica");
}

#[test]
fn author_line_full_et_al_and_single() {
    let bib = Bibliography::parse(BIB, &no_assets()).unwrap();
    let e = bib.get(0).unwrap();
    assert_eq!(
        e.author_line(1000, 110, 120),
        AuthorLine::Full {
            before: String::new(),
            owner: true,
            after: ", S Bøgh, M Olivares-Mendez, C Martinez".to_string(),
        }
    );
    assert_eq!(
        e.author_line(590, 110, 120),
        AuthorLine::EtAl {
            first: "A Orsula et al.".to_string(),
            first_is_owner: true,
            others: vec![
                ("S Bøgh".to_string(), false),
                ("M Olivares-Mendez".to_string(), false),
                ("C Martinez".to_string(), false),
            ],
        }
    );

    let src = "@article{x, title = {T}, author = {Andrej Orsula}, journal = {J}, year = {2022}}";
    let bib = Bibliography::parse(src, &no_assets()).unwrap();
    assert_eq!(bib.get(0).unwrap().author_line(1000, 110, 120), AuthorLine::Single);
}

#[test]
fn author_line_owner_in_the_middle() {
    let src = "@article{x, title = {T}, author = {Simon Bøgh and Andrej Orsula and Carol Martinez}, journal = {J}, year = {2022}}";
    let bib = Bibliography::parse(src, &no_assets()).unwrap();
    let e = bib.get(0).unwrap();
    assert_eq!(
        e.author_line(1000, 110, 120),
        AuthorLine::Full { before: "S Bøgh, ".to_string(), owner: true, after: ", C Martinez".to_string() }
    );
    assert_eq!(
        e.author_line(100, 110, 120),
        AuthorLine::EtAl {
            first: "S Bøgh et al.".to_string(),
            first_is_owner: false,
            others: vec![("A Orsula".to_string(), true), ("C Martinez".to_string(), false)],
        }
    );
}

#[test]
fn year_with_spaced_sign_is_refused() {
    let src = "@article{k, title = {T}, author = {A B}, journal = {J}, year = {- 2022}}";
    let r = Bibliography::parse(src, &no_assets());
    assert_eq!(r.err(), Some(BibError::InvalidDate { key: "k".to_string() }));
}

#[test]
fn month_with_large_day_is_refused() {
    let src = "@article{k, title = {T}, author = {A B}, journal = {J}, year = {2022}, month = {jan 300}}";
    let r = Bibliography::parse(src, &no_assets());
    assert_eq!(r.err(), Some(BibError::InvalidDate { key: "k".to_string() }));
}

#[test]
fn non_ascii_numerals_in_date_are_refused() {
    let src = "@article{k, title = {T}, author = {A B}, journal = {J}, date = {\u{662}\u{660}}}";
    let r = Bibliography::parse(src, &no_assets());
    assert_eq!(r.err(), Some(BibError::InvalidDate { key: "k".to_string() }));
}

#[test]
fn full_date_field_is_read() {
    let src = "@article{k, title = {T}, author = {A B}, journal = {J}, date = {2021-06-15}}";
    let bib = Bibliography::parse(src, &no_assets()).unwrap();
    let d = bib.get(0).unwrap().date();
    assert_eq!((d.year, d.month, d.day), (2021, Some(5), Some(14)));
}

#[test]
fn year_and_month_records_parse() {
    let src = format!("{}{}", record("y", "2022", ""), record("ym", "2022", "  month = {jun},\n"));
    let bib = Bibliography::parse(&src, &no_assets()).unwrap();
    let keys: Vec<&str> = bib.iter().map(|e| e.key()).collect();
    assert_eq!(keys, ["ym", "y"]);
    assert_eq!(bib.get(1).unwrap().year().unwrap(), 2022);
    assert_eq!(bib.get(1).unwrap().date().month, None);
}

#[test]
fn date_range_reads_its_start() {
    let src = "@article{k, title = {T}, author = {A B}, journal = {J}, date = {2022-05/2022-06}}";
    let bib = Bibliography::parse(src, &no_assets()).unwrap();
    let d = bib.get(0).unwrap().date();
    assert_eq!((d.year, d.month, d.day), (2022, Some(4), None));
}

#[test]
fn date_with_time_and_marker_is_read() {
    let src = format!(
        "{}{}",
        "@article{a, title = {T}, author = {A B}, journal = {J}, date = {2021-06-15T10:30:00}}\n",
        "@article{b, title = {T}, author = {A B}, journal = {J}, date = {2020~}}\n"
    );
    let bib = Bibliography::parse(&src, &no_assets()).unwrap();
    let keys: Vec<&str> = bib.iter().map(|e| e.key()).collect();
    assert_eq!(keys, ["a", "b"]);
}

#[test]
fn spaced_year_is_read() {
    let src = "@article{k, title = {T}, author = {A B}, journal = {J}, year = { 2019 }}";
    let bib = Bibliography::parse(src, &no_assets()).unwrap();
    assert_eq!(bib.get(0).unwrap().year().unwrap(), 2019);
}

#[test]
fn unspecified_digit_date_is_refused() {
    let src = "@article{k, title = {T}, author = {A B}, journal = {J}, date = {19XX}}";
    let r = Bibliography::parse(src, &no_assets());
    assert_eq!(r.err(), Some(BibError::InvalidDate { key: "k".to_string() }));
}

#[test]
fn copied_flag_follows_click_and_hover() {
    assert!(copied_after(false, true, true));
    assert!(copied_after(false, true, false));
    assert!(copied_after(true, false, true));
    assert!(!copied_after(true, false, false));
    assert!(!copied_after(false, false, true));
}
