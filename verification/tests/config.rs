use intel_mkl_tool::config::{Config, DataModel, FormatError, LinkType, Threading, VALID_CONFIGS};

#[test]
fn name_to_config() -> Result<(), FormatError> {
    let cfg = Config::from_str("mkl-static-lp64-iomp")?;
    assert_eq!(
        cfg,
        Config {
            link: LinkType::Static,
            index_size: DataModel::LP64,
            parallel: Threading::OpenMP
        }
    );
    Ok(())
}

#[test]
fn name_to_config_to_name() -> Result<(), FormatError> {
    for name in VALID_CONFIGS {
        let cfg = Config::from_str(name)?;
        assert_eq!(&cfg.to_string(), name);
    }
    Ok(())
}

#[test]
fn invalid_names() -> Result<(), FormatError> {
    assert!(Config::from_str("").is_err());
    assert!(Config::from_str("static-lp64-iomp").is_err());
    assert!(Config::from_str("mkll-static-lp64-iomp").is_err());
    assert!(Config::from_str("mkl-sttic-lp64-iomp").is_err());
    assert!(Config::from_str("mkl-static-l64-iomp").is_err());
    assert!(Config::from_str("mkl-static-lp64-omp").is_err());
    Ok(())
}

#[test]
fn each_error_names_its_field() {
    assert_eq!(Config::from_str(""), Err(FormatError::Shape));
    assert_eq!(Config::from_str("mkl-static-lp64"), Err(FormatError::Shape));
    assert_eq!(Config::from_str("mkl-static-lp64-iomp-"), Err(FormatError::Shape));
    assert_eq!(Config::from_str("static-lp64-iomp"), Err(FormatError::Shape));
    assert_eq!(Config::from_str("mkll-static-lp64-iomp"), Err(FormatError::Family));
    assert_eq!(Config::from_str("mkl-sttic-lp64-iomp"), Err(FormatError::Link));
    assert_eq!(Config::from_str("mkl-static-l64-iomp"), Err(FormatError::Index));
    assert_eq!(Config::from_str("mkl-static-lp64-omp"), Err(FormatError::Parallel));
}

#[test]
fn the_first_wrong_word_is_the_error() {
    assert_eq!(Config::from_str("mkll-sttic-l64-omp"), Err(FormatError::Family));
    assert_eq!(Config::from_str("mkl-sttic-l64-omp"), Err(FormatError::Link));
    assert_eq!(Config::from_str("mkl-static-l64-omp"), Err(FormatError::Index));
}

#[test]
fn names_are_case_sensitive_and_exact() {
    assert_eq!(Config::from_str("MKL-static-lp64-iomp"), Err(FormatError::Family));
    assert_eq!(Config::from_str("mkl-Static-lp64-iomp"), Err(FormatError::Link));
    assert_eq!(Config::from_str(" mkl-static-lp64-iomp"), Err(FormatError::Family));
    assert_eq!(Config::from_str("mkl-static-lp64-iomp "), Err(FormatError::Parallel));
    assert_eq!(Config::from_str("mkl--static-lp64-iomp"), Err(FormatError::Shape));
}

#[test]
fn possibles_are_the_valid_configs_in_order() {
    let all = Config::possibles();
    assert_eq!(all.len(), 8);
    for (cfg, name) in all.iter().zip(VALID_CONFIGS) {
        assert_eq!(cfg.to_string(), name);
        assert_eq!(Config::from_str(name), Ok(*cfg));
    }
    for (i, a) in all.iter().enumerate() {
        for b in all.iter().skip(i + 1) {
            assert_ne!(a, b);
        }
    }
}

#[test]
fn round_trip_through_the_name() {
    for name in VALID_CONFIGS {
        let first = Config::from_str(name);
        let again = Config::from_str(&first.unwrap().to_string());
        assert_eq!(again, first);
    }
}

#[test]
fn words_of_each_axis() {
    assert_eq!(LinkType::from_str("static"), Ok(LinkType::Static));
    assert_eq!(LinkType::from_str("dynamic"), Ok(LinkType::Dynamic));
    assert_eq!(LinkType::from_str("shared"), Err(FormatError::Link));
    assert_eq!(DataModel::from_str("lp64"), Ok(DataModel::LP64));
    assert_eq!(DataModel::from_str("ilp64"), Ok(DataModel::ILP64));
    assert_eq!(DataModel::from_str("lp32"), Err(FormatError::Index));
    assert_eq!(Threading::from_str("iomp"), Ok(Threading::OpenMP));
    assert_eq!(Threading::from_str("seq"), Ok(Threading::Sequential));
    assert_eq!(Threading::from_str("tbb"), Err(FormatError::Parallel));
    assert_eq!(LinkType::Static.to_string(), "static");
    assert_eq!(LinkType::Dynamic.to_string(), "dynamic");
    assert_eq!(DataModel::LP64.to_string(), "lp64");
    assert_eq!(DataModel::ILP64.to_string(), "ilp64");
    assert_eq!(Threading::OpenMP.to_string(), "iomp");
    assert_eq!(Threading::Sequential.to_string(), "seq");
}

#[test]
fn defaults() {
    assert_eq!(LinkType::default(), LinkType::Static);
    assert_eq!(DataModel::default(), DataModel::ILP64);
    assert_eq!(Threading::default(), Threading::Sequential);
    assert_eq!(Config::default().to_string(), "mkl-static-ilp64-seq");
}

#[test]
fn messages_name_the_field() {
    assert_eq!(FormatError::Shape.message(), "Invalid name");
    assert_eq!(FormatError::Family.message(), "Name must start with 'mkl'");
    assert_eq!(FormatError::Link.message(), "Invalid link spec");
    assert_eq!(FormatError::Index.message(), "Invalid index spec");
    assert_eq!(FormatError::Parallel.message(), "Invalid parallel spec");
}
