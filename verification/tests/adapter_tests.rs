use mojentic::model_registry::ModelType;
use mojentic::openai_adapter::get_image_type;

#[test]
fn test_get_image_type_jpg() {
    assert_eq!(get_image_type("/path/to/image.jpg"), "jpeg");
    assert_eq!(get_image_type("/path/to/image.jpeg"), "jpeg");
}

#[test]
fn test_get_image_type_png() {
    assert_eq!(get_image_type("/path/to/image.png"), "png");
}

#[test]
fn test_get_image_type_gif() {
    assert_eq!(get_image_type("/path/to/image.gif"), "gif");
}

#[test]
fn test_get_image_type_webp() {
    assert_eq!(get_image_type("/path/to/image.webp"), "webp");
}

#[test]
fn test_get_image_type_unknown() {
    assert_eq!(get_image_type("/path/to/image.unknown"), "jpeg");
}

#[test]
fn image_type_ignores_case() {
    assert_eq!(get_image_type("/x/photo.PNG"), "png");
    assert_eq!(get_image_type("no_extension"), "jpeg");
}

#[test]
fn test_model_type_enum() {
    assert_ne!(ModelType::Reasoning, ModelType::Chat);
    assert_eq!(ModelType::Reasoning, ModelType::Reasoning);
}
