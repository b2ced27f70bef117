use backend::dev::{
    generate_random_exhibit, generate_random_exhibits, get_random_dummy_exhibit, random_dummy_exhibits, sample_exhibit, sample_exhibits,
    sample_part_link, DummyExhibitData,
};

#[test]
fn sample_set_is_numbered() {
    let all = sample_exhibits();
    assert_eq!(all.len(), 100);
    let e = &all[0];
    assert_eq!(e.name, "Exhibit 1");
    assert_eq!(e.cluster, "Cluster 2");
    assert_eq!(e.location, "Location 2");
    assert_eq!(e.status, "active");
    assert_eq!(e.image_url, "http://localhost:3030/images/1.jpg");
    assert_eq!(e.sponsor_name.as_deref(), Some("Sponsor 2"));
    assert_eq!(e.part_ids, vec![1, 2]);
    assert_eq!(e.notes[1].note, "Note 2 for Exhibit 1");
    assert_eq!(all[99], sample_exhibit(100));
    assert_eq!(all[99].cluster, "Cluster 1");
    assert_eq!(all[99].sponsor_name.as_deref(), Some("Sponsor 2"));
}

#[test]
fn random_exhibit_has_its_shape() {
    for i in [1u64, 57, 100] {
        for sponsored in [false, true] {
            let g = generate_random_exhibit(i, sponsored);
            assert_eq!(g.name, format!("Exhibit {}", i));
            assert_eq!(g.image_url, format!("https://picsum.photos/seed/{}/300/200", i));
            assert!(["Biology", "Physics", "Chemistry", "Astronomy", "Geology", "Technology"].contains(&g.cluster.as_str()));
            assert!(["Hall A", "Hall B", "Hall C", "Hall D", "Hall E", "Outdoor Area"].contains(&g.location.as_str()));
            assert!(["operational", "needs repair", "out of service"].contains(&g.status.as_str()));
            assert_eq!(g.sponsor.is_some(), sponsored);
            if let Some(s) = &g.sponsor {
                assert_eq!(s.name, format!("Sponsor {}", i));
                assert!(s.started_days_ago < 365 && s.ends_in_days < 365);
            }
            assert!((3..=12).contains(&g.parts.len()));
            for (j, p) in g.parts.iter().enumerate() {
                assert_eq!(p.number, j as u64 + 1);
                assert_eq!(p.name, format!("Part {} for Exhibit {}", j + 1, i));
                assert!((1..=5).contains(&p.notes.len()));
                for (k, n) in p.notes.iter().enumerate() {
                    assert_eq!(n.note, format!("Note {} for Part {} of Exhibit {}", k + 1, j + 1, i));
                    assert!(n.days_ago < 365);
                }
            }
            assert!((1..=20).contains(&g.notes.len()));
            for (k, n) in g.notes.iter().enumerate() {
                assert_eq!(n.note, format!("Note {} for Exhibit {}", k + 1, i));
            }
        }
    }
}

#[test]
fn part_links() {
    assert_eq!(sample_part_link(42, 3), "https://example.com/exhibit/42/part/3");
}

#[test]
fn catalogue_exhibit() {
    let data = vec![DummyExhibitData {
        exhibit_name: "Water Table".to_string(),
        exhibit_description: "Splash".to_string(),
        building_location: "PoP".to_string(),
        current_status: "operational".to_string(),
        cluster: "Water".to_string(),
        notes: "".to_string(),
    }];
    let e = get_random_dummy_exhibit(&data);
    assert_eq!(e.name, "Water Table");
    assert_eq!(e.location, "PoP");
    assert_eq!(e.image_url, "https://picsum.photos/seed/Water Table/200/300");
    assert!(e.sponsor.is_none() && e.part_ids.is_empty() && e.notes.is_empty());
}

#[test]
fn one_hundred_random_exhibits_in_order() {
    let sponsored: Vec<bool> = (0..100).map(|k| k % 3 == 0).collect();
    let all = generate_random_exhibits(&sponsored);
    assert_eq!(all.len(), 100);
    for (k, g) in all.iter().enumerate() {
        assert_eq!(g.name, format!("Exhibit {}", k + 1));
        assert_eq!(g.sponsor.is_some(), k % 3 == 0);
        assert!((3..=12).contains(&g.parts.len()));
    }
}

#[test]
fn catalogue_fill_makes_one_hundred() {
    let entry = |name: &str| DummyExhibitData {
        exhibit_name: name.to_string(),
        exhibit_description: "d".to_string(),
        building_location: "Hall".to_string(),
        current_status: "operational".to_string(),
        cluster: "c".to_string(),
        notes: "".to_string(),
    };
    let data = vec![entry("Water Table"), entry("Moon Chair")];
    let made = random_dummy_exhibits(&data);
    assert_eq!(made.len(), 100);
    assert!(made.iter().all(|e| e.name == "Water Table" || e.name == "Moon Chair"));
}
