pub mod candidate_features;
