use isovoxel::voxel::BlockType;

#[test]
fn parse_accepts_all_names_case_insensitively() {
    assert_eq!(BlockType::from_name("air").unwrap(), BlockType::Air);
    assert_eq!(BlockType::from_name("water").unwrap(), BlockType::Water);
    assert_eq!(BlockType::from_name("grass").unwrap(), BlockType::Grass);
    assert_eq!(BlockType::from_name("dirt").unwrap(), BlockType::Dirt);
    assert_eq!(BlockType::from_name("stone").unwrap(), BlockType::Stone);
    assert_eq!(BlockType::from_name("log").unwrap(), BlockType::Log);
    assert_eq!(BlockType::from_name("leaves").unwrap(), BlockType::Leaves);
    assert_eq!(BlockType::from_name("rose").unwrap(), BlockType::Rose);
    assert_eq!(BlockType::from_name("dandelion").unwrap(), BlockType::Dandelion);
    assert_eq!(BlockType::from_name("bedrock").unwrap(), BlockType::Bedrock);
    assert_eq!(BlockType::from_name("GRASS").unwrap(), BlockType::Grass);
    assert_eq!(BlockType::from_name("BedRock").unwrap(), BlockType::Bedrock);
    assert_eq!(BlockType::from_name("Dandelion").unwrap(), BlockType::Dandelion);
}

#[test]
fn parse_rejects_unknown_name() {
    let err = BlockType::from_name("marble").unwrap_err();
    assert_eq!(err.invalid_block, "marble");
    assert!(BlockType::from_name("").is_err());
    assert!(BlockType::from_name("grass ").is_err());
}
