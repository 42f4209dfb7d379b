use ekapkgs_update::package::extract_drv_name;

    #[test]
    fn test_extract_drv_name_full_store_path() {
        let input = "/nix/store/abc123-python-setuptools-1.2.3.drv";
        let expected = "abc123-python-setuptools-1.2.3.drv";
        assert_eq!(extract_drv_name(input), expected);
    }

    #[test]
    fn test_extract_drv_name_short_name() {
        let input = "abc123-python-setuptools-1.2.3.drv";
        let expected = "abc123-python-setuptools-1.2.3.drv";
        assert_eq!(extract_drv_name(input), expected);
    }

    #[test]
    fn test_extract_drv_name_multiple_slashes() {
        let input = "/nix/store/subdir/hash-name.drv";
        let expected = "hash-name.drv";
        assert_eq!(extract_drv_name(input), expected);
    }

    #[test]
    fn test_extract_drv_name_no_slash() {
        let input = "just-a-name.drv";
        let expected = "just-a-name.drv";
        assert_eq!(extract_drv_name(input), expected);
    }

    #[test]
    fn test_extract_drv_name_empty_string() {
        let input = "";
        let expected = "";
        assert_eq!(extract_drv_name(input), expected);
    }

    #[test]
    fn test_extract_drv_name_trailing_slash() {
        let input = "/nix/store/abc123-pkg.drv/";
        let expected = "";
        assert_eq!(extract_drv_name(input), expected);
    }

    #[test]
    fn test_extract_drv_name_real_world_example() {
        let input = "/nix/store/3fr8b3xlygv2a64ff7fq7564j4sxv4lc-cmake-3.29.6.drv";
        let expected = "3fr8b3xlygv2a64ff7fq7564j4sxv4lc-cmake-3.29.6.drv";
        assert_eq!(extract_drv_name(input), expected);
    }
