use saykocraft_launcher::profile_icon::{
    cache_paths, check_status, decode_textures, png_to_data_url, process_icon_from_skin, crop_pixels, RgbaPixels,
    profile_lookup_url, revalidation_etag, sanitize_username, session_profile_url, skin_response_step,
    skin_url, textures_property, IconCacheMeta, SkinStep,
};

#[test]
fn cache_names() {
    assert_eq!(sanitize_username("Steve_99"), "steve_99");
    assert_eq!(sanitize_username("A.b/C ğ"), "a_b_c__");
    let (icon, meta) = cache_paths("/cache/profile-icons", "Steve");
    assert_eq!(icon, "/cache/profile-icons/steve.png");
    assert_eq!(meta, "/cache/profile-icons/steve.json");
    for name in ["Ünal", "../../etc", "a b"] {
        assert!(sanitize_username(name)
            .chars()
            .all(|c| c.is_ascii_lowercase() || c.is_ascii_digit() || c == '_'));
        assert_eq!(sanitize_username(name).chars().count(), name.chars().count());
    }
}

#[test]
fn lookup_addresses() {
    assert_eq!(
        profile_lookup_url("Steve"),
        "https://api.minecraftservices.com/minecraft/profile/lookup/name/Steve"
    );
    assert_eq!(
        session_profile_url("abc"),
        "https://sessionserver.mojang.com/session/minecraft/profile/abc"
    );
}

#[test]
fn data_urls() {
    assert_eq!(png_to_data_url(b"hello"), "data:image/png;base64,aGVsbG8=");
    assert_eq!(png_to_data_url(b""), "data:image/png;base64,");
    assert_eq!(png_to_data_url(b"ab"), "data:image/png;base64,YWI=");
    assert_eq!(png_to_data_url(&[0xfb, 0xff]), "data:image/png;base64,+/8=");
}

#[test]
fn textures_of_a_profile() {
    let props = vec![
        ("other".to_string(), "x".to_string()),
        ("textures".to_string(), "eyJ0ZXh0dXJlcyI6e319".to_string()),
    ];
    let value = textures_property(&props).unwrap();
    assert_eq!(value, "eyJ0ZXh0dXJlcyI6e319");
    assert_eq!(decode_textures(&value).unwrap(), b"{\"textures\":{}}".to_vec());
    assert_eq!(textures_property(&Vec::new()), Err(404));
    assert_eq!(decode_textures("not base64!"), Err(500));
    assert_eq!(decode_textures("aGVsbG8"), Err(500));
    assert_eq!(skin_url(Some("http://textures/x".to_string())).unwrap(), "http://textures/x");
    assert_eq!(skin_url(None), Err(404));
}

#[test]
fn revalidation() {
    let meta = IconCacheMeta { etag: Some("\"e1\"".to_string()), skin_url: Some("u1".to_string()) };
    assert_eq!(revalidation_etag(&meta, "u1").as_deref(), Some("\"e1\""));
    assert_eq!(revalidation_etag(&meta, "u2"), None);
    assert_eq!(revalidation_etag(&IconCacheMeta::default(), "u1"), None);
    assert!(matches!(skin_response_step(304, true), SkinStep::UseCached));
    assert!(matches!(skin_response_step(304, false), SkinStep::FetchAgain));
    assert!(matches!(skin_response_step(200, true), SkinStep::Continue));
    assert_eq!(check_status(204), Ok(()));
    assert_eq!(check_status(404), Err(404));
}

#[test]
fn icons_are_cut_from_skins() {
    let mut skin = image::RgbaImage::new(64, 64);
    for y in 8..16 {
        for x in 8..16 {
            skin.put_pixel(x, y, image::Rgba([200, 10, 10, 255]));
        }
    }
    skin.put_pixel(40, 8, image::Rgba([0, 0, 255, 255]));
    let mut bytes = Vec::new();
    image::DynamicImage::ImageRgba8(skin)
        .write_to(&mut std::io::Cursor::new(&mut bytes), image::ImageFormat::Png)
        .unwrap();
    let icon = process_icon_from_skin(&bytes).unwrap();
    let decoded = image::load_from_memory(&icon).unwrap().to_rgba8();
    assert_eq!(decoded.dimensions(), (8, 8));
    assert_eq!(decoded.get_pixel(0, 0), &image::Rgba([0, 0, 255, 255]));
    assert_eq!(decoded.get_pixel(3, 3), &image::Rgba([200, 10, 10, 255]));
    assert_eq!(process_icon_from_skin(b"not an image"), Err(415));
}

#[test]
fn crops_are_cut_to_the_image() {
    let img = RgbaPixels { width: 3, height: 2, pixels: (0u8..24).collect() };
    let c = crop_pixels(&img, 1, 1, 8, 8);
    assert_eq!((c.width, c.height), (2, 1));
    assert_eq!(c.pixels, (16u8..24).collect::<Vec<u8>>());
    let whole = crop_pixels(&img, 0, 0, 3, 2);
    assert_eq!(whole.pixels, img.pixels);
    let outside = crop_pixels(&img, 40, 8, 8, 8);
    assert_eq!((outside.width, outside.height, outside.pixels.len()), (0, 0, 0));
}

#[test]
fn small_skins_give_the_face_without_a_hat() {
    let mut skin = image::RgbaImage::new(16, 16);
    for y in 8..16 {
        for x in 8..16 {
            skin.put_pixel(x, y, image::Rgba([x as u8, y as u8, 7, 255]));
        }
    }
    let mut bytes = Vec::new();
    image::DynamicImage::ImageRgba8(skin)
        .write_to(&mut std::io::Cursor::new(&mut bytes), image::ImageFormat::Png)
        .unwrap();
    let icon = image::load_from_memory(&process_icon_from_skin(&bytes).unwrap()).unwrap().to_rgba8();
    assert_eq!(icon.dimensions(), (8, 8));
    assert_eq!(icon.get_pixel(2, 5), &image::Rgba([10, 13, 7, 255]));
}
