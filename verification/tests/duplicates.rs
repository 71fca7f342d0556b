use tagref::collections::LabelMap;
use tagref::directive::{Directive, Type};
use tagref::duplicates::check;

#[test]
fn duplicates_check_empty() {
    assert!(check(&LabelMap::new()).is_empty());
}

#[test]
fn check_no_dupes() {
    let mut tags_map = LabelMap::new();

    let tags_vec1 = vec![Directive {
        kind: Type::Tag,
        label: "tag1".to_owned(),
        path: "file1.rs".to_owned(),
        line_number: 1,
    }];

    let tags_vec2 = vec![Directive {
        kind: Type::Tag,
        label: "tag2".to_owned(),
        path: "file2.rs".to_owned(),
        line_number: 2,
    }];

    tags_map.insert("tag1".to_owned(), tags_vec1);
    tags_map.insert("tag2".to_owned(), tags_vec2);

    assert!(check(&tags_map).is_empty());
}

#[test]
fn check_dupes() {
    let mut tags_map = LabelMap::new();

    let tags_vec1 = vec![Directive {
        kind: Type::Tag,
        label: "tag1".to_owned(),
        path: "file1.rs".to_owned(),
        line_number: 1,
    }];

    let tags_vec2 = vec![
        Directive {
            kind: Type::Tag,
            label: "tag2".to_owned(),
            path: "file1.rs".to_owned(),
            line_number: 1,
        },
        Directive {
            kind: Type::Tag,
            label: "tag2".to_owned(),
            path: "file2.rs".to_owned(),
            line_number: 2,
        },
    ];

    let tags_vec3 = vec![
        Directive {
            kind: Type::Tag,
            label: "tag3".to_owned(),
            path: "file1.rs".to_owned(),
            line_number: 1,
        },
        Directive {
            kind: Type::Tag,
            label: "tag3".to_owned(),
            path: "file2.rs".to_owned(),
            line_number: 2,
        },
        Directive {
            kind: Type::Tag,
            label: "tag3".to_owned(),
            path: "file3.rs".to_owned(),
            line_number: 2,
        },
    ];

    tags_map.insert("tag1".to_owned(), tags_vec1.clone());
    tags_map.insert("tag2".to_owned(), tags_vec2.clone());
    tags_map.insert("tag3".to_owned(), tags_vec3.clone());

    let errors = check(&tags_map);
    assert_eq!(errors.len(), 2);
    assert!(
        (errors[0].contains(&tags_vec2[0].to_string())
            && errors[0].contains(&tags_vec2[1].to_string())
            && errors[1].contains(&tags_vec3[0].to_string())
            && errors[1].contains(&tags_vec3[1].to_string())
            && errors[1].contains(&tags_vec3[2].to_string()))
            || (errors[0].contains(&tags_vec3[0].to_string())
                && errors[0].contains(&tags_vec3[1].to_string())
                && errors[0].contains(&tags_vec3[2].to_string())
                && errors[1].contains(&tags_vec2[0].to_string())
                && errors[1].contains(&tags_vec2[1].to_string())),
    );
}

#[test]
fn check_dupes_gives_the_exact_text() {
    let mut tags_map = LabelMap::new();
    tags_map.insert(
        "x".to_owned(),
        vec![
            Directive {
                kind: Type::Tag,
                label: "x".to_owned(),
                path: "a.rs".to_owned(),
                line_number: 7,
            },
            Directive {
                kind: Type::Tag,
                label: "x".to_owned(),
                path: "b/c.rs".to_owned(),
                line_number: 1000,
            },
        ],
    );

    assert_eq!(
        check(&tags_map),
        vec![
            "Duplicate tags found for label `x`:\n  [tag:x] @ a.rs:7\n  [tag:x] @ b/c.rs:1000\n"
                .to_owned()
        ],
    );
}

#[test]
fn check_dupes_keeps_the_order_of_the_labels() {
    let tag = |label: &str, line_number: usize| Directive {
        kind: Type::Tag,
        label: label.to_owned(),
        path: "f".to_owned(),
        line_number,
    };
    let mut tags_map = LabelMap::new();
    tags_map.insert("b".to_owned(), vec![tag("b", 1), tag("b", 2)]);
    tags_map.insert("a".to_owned(), vec![tag("a", 3), tag("a", 4)]);

    let errors = check(&tags_map);
    assert_eq!(errors.len(), 2);
    assert!(errors[0].starts_with("Duplicate tags found for label `b`:"));
    assert!(errors[1].starts_with("Duplicate tags found for label `a`:"));
}
