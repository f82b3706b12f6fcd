//! Configuration: the settings tree, its defaults and its override rules.
//! Reading the YAML files and the environment is the program's part.

pub mod settings;
