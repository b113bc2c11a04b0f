use smart_farm_backend::error::Error;
use smart_farm_backend::rotation::{crop_rotation_recommendations, load_crop_rotation_data};

fn names(list: &[&str]) -> Vec<String> {
    list.iter().map(|s| s.to_string()).collect()
}

#[test]
fn rotation_table_has_three_crops() {
    assert_eq!(
        load_crop_rotation_data(),
        vec![
            ("wheat".to_string(), names(&["soybean", "corn"])),
            ("corn".to_string(), names(&["wheat", "soybean"])),
            ("soybean".to_string(), names(&["corn", "wheat"])),
        ]
    );
}

#[test]
fn recommendations_for_known_crops() {
    assert_eq!(crop_rotation_recommendations("wheat".to_string()), Ok(names(&["soybean", "corn"])));
    assert_eq!(crop_rotation_recommendations("corn".to_string()), Ok(names(&["wheat", "soybean"])));
    assert_eq!(crop_rotation_recommendations("soybean".to_string()), Ok(names(&["corn", "wheat"])));
}

#[test]
fn recommendations_for_unknown_crops_are_not_found() {
    for name in ["", "Wheat", "wheat ", "rice", "CORN"] {
        assert_eq!(
            crop_rotation_recommendations(name.to_string()),
            Err(Error::NotFound {
                msg: "No recommendations available for the input crop.".to_string()
            })
        );
    }
}
