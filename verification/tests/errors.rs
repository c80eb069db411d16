use sonant::errors::iter_sources;
use sonant::Error;

#[test]
fn iter_sources_is_empty_for_decoder_errors() {
    // Decoder errors are leaf conditions: none carries a cause, so the
    // source chain beneath each of them is empty.
    for error in [Error::FileLength, Error::InvalidWaveform, Error::InvalidFilter] {
        assert!(error.source().is_none());

        let mut iter = iter_sources(&error);
        let mut counter = 0;
        while let Some(_) = iter.next() {
            counter += 1;
        }
        assert_eq!(counter, 0);
    }
}
