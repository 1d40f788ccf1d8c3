pub mod abi;
