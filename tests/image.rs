use docker_tags::image::Image;

#[test]
fn test_image_try_from() {
    assert!(matches!(
        Image::try_from("debian"),
        Ok(Image { registry, repository })
            if registry == "docker.io" && repository == "debian"
    ));

    assert!(matches!(
        Image::try_from("prom/prometheus"),
        Ok(Image { registry, repository })
            if registry == "docker.io" && repository == "prom/prometheus"
    ));

    assert!(matches!(
        Image::try_from("docker.angie.software/angie"),
        Ok(Image { registry, repository })
            if registry == "docker.angie.software" && repository == "angie"
    ));

    assert!(matches!(
        Image::try_from("docker.io/prom/prometheus"),
        Ok(Image { registry, repository })
            if registry == "docker.io" && repository == "prom/prometheus"
    ));

    assert!(matches!(
        Image::try_from("quay.io/prometheus/prometheus"),
        Ok(Image { registry, repository })
            if registry == "quay.io" && repository == "prometheus/prometheus"
    ));
}

#[test]
fn test_image_try_from_invalid() {
    assert!(matches!(
        Image::try_from("invalid/image/format"),
        Err("Invalid image format")
    ));

    assert!(matches!(
        Image::try_from("another.com/invalid/image/format"),
        Err("Invalid image format")
    ));
}

#[test]
fn registry_of_parsed_reference_has_no_slash() {
    for s in ["debian", "a/b", "a.b/c", "a.b/c/d", "x.y:5000/team/app", "/", "a./"] {
        let image = Image::try_from(s).unwrap();
        assert!(!image.registry.contains('/'));
    }
}

#[test]
fn reference_edge_cases() {
    let image = Image::try_from("localhost:5000/app").unwrap();
    assert_eq!(image.registry, "docker.io");
    assert_eq!(image.repository, "localhost:5000/app");
    let image = Image::try_from("").unwrap();
    assert_eq!(image.registry, "docker.io");
    assert_eq!(image.repository, "");
    assert!(Image::try_from("a/b/c/d").is_err());
    assert!(Image::try_from("a.b/c/d/e").is_err());
}

#[test]
fn new_keeps_its_arguments() {
    let image = Image::new("ghcr.io", "xtls/xray-core");
    assert_eq!(image.registry, "ghcr.io");
    assert_eq!(image.repository, "xtls/xray-core");
}

#[test]
fn tags_url_of_each_registry() {
    assert_eq!(
        Image::try_from("nginx").unwrap().tags_url(),
        "https://registry-1.docker.io/v2/library/nginx/tags/list?n=100"
    );
    assert_eq!(
        Image::try_from("prom/prometheus").unwrap().tags_url(),
        "https://registry-1.docker.io/v2/prom/prometheus/tags/list?n=100"
    );
    assert_eq!(
        Image::try_from("quay.io/prometheus/prometheus").unwrap().tags_url(),
        "https://quay.io/v2/prometheus/prometheus/tags/list?n=100"
    );
    assert_eq!(
        Image::try_from("docker.angie.software/angie").unwrap().tags_url(),
        "https://docker.angie.software/v2/angie/tags/list?n=100"
    );
}

#[test]
fn credential_key_of_each_registry() {
    assert_eq!(
        Image::try_from("nginx").unwrap().credential_key(),
        "https://index.docker.io/v1/"
    );
    assert_eq!(Image::try_from("ghcr.io/a/b").unwrap().credential_key(), "ghcr.io");
}
